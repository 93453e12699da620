//! A progress bar that is redrawn in place from a polled progress value.

use vstd::pervasive::runtime_assert;
use vstd::prelude::*;
use vstd::string::*;

use crate::text::{push_repeated, repeated};
pub use crate::utils::Color;

verus! {

/// The appearance of a progress bar.
#[derive(Debug, Clone, Copy, PartialEq, Eq, Structural)]
pub struct Style {
    /// The character that fills the completed part of the bar.
    pub bar_character: char,
    /// The width of the bar in characters, brackets not counted.
    pub bar_length: u64,
    /// The colour the bar is drawn in.
    pub color: Color,
}

impl Style {
    /// The style of a bar for which nothing was chosen: fifty `=` in white.
    pub open spec fn standard() -> Style {
        Style { bar_character: '=', bar_length: 50, color: Color::White }
    }
}

impl Default for Style {
    fn default() -> (style: Style)
        ensures
            style == Style::standard(),
    {
        Style { bar_character: '=', bar_length: 50, color: Color::White }
    }
}

/// Collects the choices for a [`Style`]; what is not chosen keeps its standard
/// value.
pub struct StyleBuilder {
    bar_character: Option<char>,
    bar_length: Option<u64>,
    color: Option<Color>,
}

impl StyleBuilder {
    /// The style that `build` returns for this builder.
    pub closed spec fn built(self) -> Style {
        Style {
            bar_character: match self.bar_character {
                Some(character) => character,
                None => Style::standard().bar_character,
            },
            bar_length: match self.bar_length {
                Some(length) => length,
                None => Style::standard().bar_length,
            },
            color: match self.color {
                Some(color) => color,
                None => Style::standard().color,
            },
        }
    }

    /// A builder with nothing chosen yet.
    pub fn new() -> (builder: StyleBuilder)
        ensures
            builder.built() == Style::standard(),
    {
        StyleBuilder { bar_character: None, bar_length: None, color: None }
    }

    /// Chooses the character that fills the bar.
    pub fn bar_character(self, character: char) -> (builder: StyleBuilder)
        ensures
            builder.built() == (Style { bar_character: character, ..self.built() }),
    {
        let mut builder = self;
        builder.bar_character = Some(character);
        builder
    }

    /// Chooses the width of the bar.
    pub fn bar_length(self, length: u64) -> (builder: StyleBuilder)
        ensures
            builder.built() == (Style { bar_length: length, ..self.built() }),
    {
        let mut builder = self;
        builder.bar_length = Some(length);
        builder
    }

    /// Chooses the colour of the bar.
    pub fn color(self, color: Color) -> (builder: StyleBuilder)
        ensures
            builder.built() == (Style { color: color, ..self.built() }),
    {
        let mut builder = self;
        builder.color = Some(color);
        builder
    }

    /// The style with every choice made so far and the standard value for the
    /// rest.
    pub fn build(self) -> (style: Style)
        ensures
            style == self.built(),
    {
        Style {
            bar_character: match self.bar_character {
                Some(character) => character,
                None => '=',
            },
            bar_length: match self.bar_length {
                Some(length) => length,
                None => 50,
            },
            color: match self.color {
                Some(color) => color,
                None => Color::White,
            },
        }
    }
}

/// How many cells of a bar `width` cells wide are filled when the progress
/// value is `current` on the way from `start` to `goal`.
///
/// Between the bounds this is the proportion of the way covered, scaled to the
/// width and rounded down. A value at or past the goal fills the bar, also
/// where `goal == start`; a value at or before the start leaves it empty.
pub open spec fn filled_cells(start: u64, goal: u64, width: u64, current: u64) -> nat {
    if current >= goal {
        width as nat
    } else if current <= start {
        0
    } else {
        (((current - start) * width) / (goal - start)) as nat
    }
}

/// The cells of a bar: `filled` copies of `fill`, then spaces up to `width`.
pub open spec fn bar_text(fill: char, width: nat, filled: nat) -> Seq<char> {
    repeated(fill, filled) + repeated(' ', (width - filled) as nat)
}

/// One frame: a carriage return, the colour's escape sequence, and the bar
/// between square brackets.
pub open spec fn frame(style: Style, filled: nat) -> Seq<char> {
    seq!['\r'] + style.color.ansi_code() + seq!['['] + bar_text(
        style.bar_character,
        style.bar_length as nat,
        filled,
    ) + seq![']']
}

/// Computes `filled_cells` in machine arithmetic.
fn count_filled_cells(start: u64, goal: u64, width: u64, current: u64) -> (filled: u64)
    ensures
        filled == filled_cells(start, goal, width, current),
        filled <= width,
{
    if current >= goal {
        width
    } else if current <= start {
        0
    } else {
        let covered: u64 = current - start;
        let span: u64 = goal - start;
        assert(covered * width <= span * width) by (nonlinear_arith)
            requires
                covered <= span,
        ;
        assert(span * width <= 0xffff_ffff_ffff_ffff * 0xffff_ffff_ffff_ffff) by (nonlinear_arith)
            requires
                span <= 0xffff_ffff_ffff_ffff,
                width <= 0xffff_ffff_ffff_ffff,
        ;
        assert((covered * width) / (span as int) <= width) by (nonlinear_arith)
            requires
                covered * width <= span * width,
                span > 0,
                covered >= 0,
                width >= 0,
        ;
        let scaled: u128 = (covered as u128) * (width as u128);
        (scaled / (span as u128)) as u64
    }
}

/// A progress bar: the bounds of the progress value, the source that is asked
/// for the value, and the style the bar is drawn in.
pub struct ProgressBar<F> {
    /// The progress value at which the bar is empty. An absolute value, as
    /// `goal` is: a task that stands at 500 and is done at 700 has `start` 500
    /// and `goal` 700.
    pub start: u64,
    /// The progress value at which the bar is full and the animation ends.
    pub goal: u64,
    /// Answers with the current progress value each time it is called.
    pub get_progress: F,
    /// The appearance of the bar.
    pub style: Style,
}

impl<F: Fn() -> u64 + Send + 'static> ProgressBar<F> {
    /// The bounds are in order and the source can be called.
    pub open spec fn wf(&self) -> bool {
        &&& self.start <= self.goal
        &&& call_requires(self.get_progress, ())
    }

    /// The frame that shows the progress value `current`.
    pub open spec fn frame_for(&self, current: u64) -> Seq<char> {
        frame(self.style, filled_cells(self.start, self.goal, self.style.bar_length, current))
    }

    /// A bar that runs from `start` to `goal` and asks `get_progress` for the
    /// value in between. Bounds out of order are refused: a caller that was
    /// not verified and passes them is stopped by a panic.
    pub fn new(start: u64, goal: u64, get_progress: F, style: Style) -> (bar: ProgressBar<F>)
        requires
            start <= goal,
            call_requires(get_progress, ()),
        ensures
            bar.start == start,
            bar.goal == goal,
            bar.get_progress == get_progress,
            bar.style == style,
            bar.wf(),
    {
        runtime_assert(start <= goal);
        ProgressBar { start, goal, get_progress, style }
    }

    /// Draws the frame for the progress value `current_value`.
    pub fn update_display(&self, current_value: u64) -> (drawn: String)
        requires
            self.wf(),
        ensures
            drawn@ == self.frame_for(current_value),
    {
        let width: u64 = self.style.bar_length;
        let filled: u64 = count_filled_cells(self.start, self.goal, width, current_value);
        let mut drawn = String::new();
        drawn.push('\r');
        drawn.append(self.style.color.to_ansi_code());
        drawn.push('[');
        push_repeated(&mut drawn, self.style.bar_character, filled);
        push_repeated(&mut drawn, ' ', width - filled);
        drawn.push(']');
        assert(drawn@ =~= self.frame_for(current_value));
        drawn
    }

    /// Begins a run of the animation. Nothing is drawn yet: the caller asks
    /// the run for one frame after another and writes each to its terminal,
    /// until the run has none left.
    pub fn start(&self) -> (run: Animation<'_, F>)
        requires
            self.wf(),
        ensures
            run.bar == self,
            run.current == self.start,
    {
        Animation { bar: self, current: self.start }
    }
}

/// One run of a bar's animation: the bar, and the progress value that the run
/// saw last (the bar's start before the first poll).
///
/// A run is over as soon as the value it saw has reached the goal. Until then
/// every value it is given is drawn, whether it lies between the bounds or
/// not, whether it is more or less than the one before.
pub struct Animation<'a, F> {
    /// The bar that is animated.
    pub bar: &'a ProgressBar<F>,
    /// The progress value seen last.
    pub current: u64,
}

impl<'a, F: Fn() -> u64 + Send + 'static> Animation<'a, F> {
    /// The run has seen a value at or past the goal.
    pub open spec fn finished(self) -> bool {
        self.current >= self.bar.goal
    }

    /// The run after the source has answered `sample`: a finished run stays as
    /// it is, any other has now seen `sample`.
    pub open spec fn after(self, sample: u64) -> Self {
        if self.finished() {
            self
        } else {
            Animation { bar: self.bar, current: sample }
        }
    }

    /// What the run draws when the source answers `sample`: the frame for
    /// `sample`, or nothing once the run is finished.
    pub open spec fn drawn(self, sample: u64) -> Option<Seq<char>> {
        if self.finished() {
            None
        } else {
            Some(self.bar.frame_for(sample))
        }
    }

    /// The run after the source has answered each of `samples` in turn.
    pub open spec fn after_all(self, samples: Seq<u64>) -> Self
        decreases samples.len(),
    {
        if samples.len() == 0 {
            self
        } else {
            self.after(samples[0]).after_all(samples.drop_first())
        }
    }

    /// The frames that the run draws while the source answers each of
    /// `samples` in turn.
    pub open spec fn frames(self, samples: Seq<u64>) -> Seq<Seq<char>>
        decreases samples.len(),
    {
        if samples.len() == 0 {
            Seq::empty()
        } else {
            let rest = self.after(samples[0]).frames(samples.drop_first());
            match self.drawn(samples[0]) {
                Some(text) => seq![text] + rest,
                None => rest,
            }
        }
    }

    /// Whether the run is over.
    pub fn is_finished(&self) -> (finished: bool)
        ensures
            finished == self.finished(),
    {
        self.current >= self.bar.goal
    }

    /// Takes `sample` as the source's next answer and returns the frame to
    /// write for it. A finished run takes no more answers and returns `None`.
    pub fn step(&mut self, sample: u64) -> (drawn: Option<String>)
        requires
            old(self).bar.wf(),
        ensures
            *final(self) == old(self).after(sample),
            match drawn {
                Some(text) => old(self).drawn(sample) == Some(text@),
                None => old(self).drawn(sample) is None,
            },
    {
        if self.current >= self.bar.goal {
            None
        } else {
            self.current = sample;
            Some(self.bar.update_display(sample))
        }
    }

    /// Asks the source for the progress value, unless the run is finished, and
    /// returns the frame to write for the answer: the run then stands as after
    /// `step` on that answer, which is its new `current`.
    pub fn poll(&mut self) -> (drawn: Option<String>)
        requires
            old(self).bar.wf(),
        ensures
            final(self).bar == old(self).bar,
            old(self).finished() ==> drawn is None && final(self).current == old(self).current,
            !old(self).finished() ==> {
                &&& call_ensures(old(self).bar.get_progress, (), final(self).current)
                &&& drawn matches Some(text)
                &&& text@ == old(self).bar.frame_for(final(self).current)
            },
    {
        if self.current >= self.bar.goal {
            None
        } else {
            let sample: u64 = (self.bar.get_progress)();
            self.step(sample)
        }
    }
}

/// Between the bounds the number of filled cells is the proportion of the way
/// covered, `(current - start) / (goal - start)`, times the width, rounded
/// down: the largest whole number of cells that does not overstate it.
pub proof fn lemma_filled_cells_between_bounds(start: u64, goal: u64, width: u64, current: u64)
    requires
        start <= current <= goal,
        start < goal,
    ensures
        filled_cells(start, goal, width, current) == ((current - start) * width) / (goal - start),
        filled_cells(start, goal, width, current) * (goal - start) <= (current - start) * width,
        (current - start) * width < (filled_cells(start, goal, width, current) + 1) * (goal
            - start),
{
    let covered = current - start;
    let span = goal - start;
    let scaled = covered * width;
    let cells = scaled / span;
    assert(0 <= scaled) by (nonlinear_arith)
        requires
            0 <= covered,
            0 <= width,
            scaled == covered * width,
    ;
    assert(0 <= cells && cells * span <= scaled < (cells + 1) * span) by (nonlinear_arith)
        requires
            span > 0,
            scaled >= 0,
            cells == scaled / span,
    ;
    if current == goal {
        assert(cells == width) by (nonlinear_arith)
            requires
                span > 0,
                scaled == span * width,
                cells * span <= scaled < (cells + 1) * span,
        ;
    } else if current == start {
        assert(scaled == 0) by (nonlinear_arith)
            requires
                covered == 0,
                scaled == covered * width,
        ;
    }
}

/// Whatever the progress value, no more cells are filled than the bar has, and
/// filled cells and padding together are exactly as wide as the bar: the
/// filled cells come first and hold the fill character, the rest hold spaces.
pub proof fn lemma_bar_text_has_bar_width(
    start: u64,
    goal: u64,
    width: u64,
    current: u64,
    fill: char,
)
    ensures
        filled_cells(start, goal, width, current) <= width,
        bar_text(fill, width as nat, filled_cells(start, goal, width, current)).len() == width,
        forall|i: int|
            0 <= i < width ==> #[trigger] bar_text(
                fill,
                width as nat,
                filled_cells(start, goal, width, current),
            )[i] == (if i < filled_cells(start, goal, width, current) {
                fill
            } else {
                ' '
            }),
{
    if start < current < goal {
        let covered = current - start;
        let span = goal - start;
        assert(0 <= (covered * width) / span <= width) by (nonlinear_arith)
            requires
                0 <= covered <= span,
                span > 0,
                width >= 0,
        ;
    }
}

/// A bar that has bounds apart is empty at its start, all padding, and at its
/// goal it is full, with no padding.
pub proof fn lemma_bar_empty_at_start_full_at_goal(start: u64, goal: u64, width: u64, fill: char)
    requires
        start < goal,
    ensures
        filled_cells(start, goal, width, start) == 0,
        bar_text(fill, width as nat, filled_cells(start, goal, width, start)) == repeated(
            ' ',
            width as nat,
        ),
        filled_cells(start, goal, width, goal) == width,
        bar_text(fill, width as nat, filled_cells(start, goal, width, goal)) == repeated(
            fill,
            width as nat,
        ),
{
    assert(bar_text(fill, width as nat, 0) =~= repeated(' ', width as nat));
    assert(bar_text(fill, width as nat, width as nat) =~= repeated(fill, width as nat));
}

/// `text` is the escape sequence of one of the colours.
pub open spec fn is_color_code(text: Seq<char>) -> bool {
    exists|color: Color| text == color.ansi_code()
}

/// Every frame begins with a carriage return, carries the escape sequence of
/// the bar's colour right after it, and holds no colour's escape sequence
/// anywhere else.
pub proof fn lemma_frame_has_one_color_code<F: Fn() -> u64 + Send + 'static>(
    bar: &ProgressBar<F>,
    current: u64,
)
    ensures
        bar.frame_for(current).len() == bar.style.bar_length + 8,
        bar.frame_for(current)[0] == '\r',
        bar.frame_for(current).subrange(1, 6) == bar.style.color.ansi_code(),
        forall|at: int|
            0 <= at && at + 5 <= bar.frame_for(current).len() && is_color_code(
                #[trigger] bar.frame_for(current).subrange(at, at + 5),
            ) ==> at == 1,
{
    let width = bar.style.bar_length;
    let fill = bar.style.bar_character;
    let filled = filled_cells(bar.start, bar.goal, width, current);
    let code = bar.style.color.ansi_code();
    let text = bar.frame_for(current);
    lemma_bar_text_has_bar_width(bar.start, bar.goal, width, current, fill);
    let cells = bar_text(fill, width as nat, filled);
    assert(code.len() == 5);
    assert(text.len() == width + 8);
    assert(text.subrange(1, 6) =~= code);
    assert forall|i: int| 0 <= i < text.len() implies #[trigger] text[i] == (if i == 0 {
        '\r'
    } else if i < 6 {
        code[i - 1]
    } else if i == 6 {
        '['
    } else if i < 7 + width {
        cells[i - 7]
    } else {
        ']'
    }) by {}
    assert forall|at: int|
        0 <= at && at + 5 <= text.len() && is_color_code(
            #[trigger] text.subrange(at, at + 5),
        ) implies at == 1 by {
        let part = text.subrange(at, at + 5);
        let color = choose|color: Color| part == color.ansi_code();
        assert(part[0] == '\x1b' && part[1] == '[');
        assert(text[at] == '\x1b' && text[at + 1] == '[');
        if at >= 7 {
            if at + 1 < 7 + width {
                assert(text[at + 1] == cells[at + 1 - 7]);
                assert(text[at] == cells[at - 7]);
            }
        }
    }
}

impl<'a, F: Fn() -> u64 + Send + 'static> Animation<'a, F> {
    /// What a run draws for a progress value depends on the bar and on that
    /// value alone: two runs of one bar, whatever each has seen before, draw
    /// the same frame for the same value.
    pub proof fn lemma_same_value_same_frame(self, other: Self, sample: u64)
        requires
            self.bar == other.bar,
            !self.finished(),
            !other.finished(),
        ensures
            self.drawn(sample) == other.drawn(sample),
            self.drawn(sample) == Some(self.bar.frame_for(sample)),
    {
    }

    /// A finished run stays finished and draws nothing, whatever the source
    /// answers afterwards.
    pub proof fn lemma_finished_run_is_silent(self, samples: Seq<u64>)
        requires
            self.finished(),
        ensures
            self.after_all(samples) == self,
            self.frames(samples) == Seq::<Seq<char>>::empty(),
        decreases samples.len(),
    {
        if samples.len() > 0 {
            self.lemma_finished_run_is_silent(samples.drop_first());
        }
    }

    /// A run ends with the first answer that reaches the goal. Where the
    /// answer at `last` is at or past the goal and none before it is, a run
    /// that is not yet finished draws one frame for each answer up to and
    /// including that one, in their order, and nothing for any later answer;
    /// it is then finished, having seen the answer at `last`.
    pub proof fn lemma_run_ends_at_first_value_at_goal(self, samples: Seq<u64>, last: int)
        requires
            !self.finished(),
            0 <= last < samples.len(),
            samples[last] >= self.bar.goal,
            forall|i: int| 0 <= i < last ==> samples[i] < self.bar.goal,
        ensures
            self.frames(samples) == Seq::new(
                (last + 1) as nat,
                |i: int| self.bar.frame_for(samples[i]),
            ),
            self.after_all(samples).finished(),
            self.after_all(samples).current == samples[last],
            self.after_all(samples).bar == self.bar,
        decreases samples.len(),
    {
        let next = self.after(samples[0]);
        let rest = samples.drop_first();
        let expected = Seq::new((last + 1) as nat, |i: int| self.bar.frame_for(samples[i]));
        if last == 0 {
            next.lemma_finished_run_is_silent(rest);
            assert(self.frames(samples) =~= expected);
        } else {
            assert forall|i: int| 0 <= i < last - 1 implies rest[i] < next.bar.goal by {
                assert(rest[i] == samples[i + 1]);
            }
            next.lemma_run_ends_at_first_value_at_goal(rest, last - 1);
            assert(self.frames(samples) =~= expected) by {
                let tail = Seq::new(last as nat, |i: int| next.bar.frame_for(rest[i]));
                assert(next.frames(rest) == tail);
                assert(self.frames(samples) == seq![self.bar.frame_for(samples[0])] + tail);
                assert forall|i: int| 0 <= i < last + 1 implies (seq![
                    self.bar.frame_for(samples[0]),
                ] + tail)[i] == expected[i] by {
                    if i > 0 {
                        assert(tail[i - 1] == next.bar.frame_for(rest[i - 1]));
                    }
                }
            }
        }
    }

    /// A run is over after finitely many polls as soon as the source has
    /// answered with a value at or past the goal: it is finished once the
    /// source has given `samples`, and has drawn at most one frame for each.
    pub proof fn lemma_run_ends_when_goal_is_reached(self, samples: Seq<u64>)
        requires
            exists|i: int| 0 <= i < samples.len() && samples[i] >= self.bar.goal,
        ensures
            self.after_all(samples).finished(),
            self.frames(samples).len() <= samples.len(),
    {
        if self.finished() {
            self.lemma_finished_run_is_silent(samples);
        } else {
            let goal = self.bar.goal;
            let some = choose|i: int| 0 <= i < samples.len() && samples[i] >= goal;
            let first = first_at_goal(samples, goal, some);
            self.lemma_run_ends_at_first_value_at_goal(samples, first);
        }
    }
}

/// The first place up to `bound` at which `samples` holds a value at or past
/// `goal`.
proof fn first_at_goal(samples: Seq<u64>, goal: u64, bound: int) -> (first: int)
    requires
        0 <= bound < samples.len(),
        samples[bound] >= goal,
    ensures
        0 <= first <= bound,
        samples[first] >= goal,
        forall|i: int| 0 <= i < first ==> samples[i] < goal,
    decreases bound,
{
    if exists|i: int| 0 <= i < bound && samples[i] >= goal {
        let earlier = choose|i: int| 0 <= i < bound && samples[i] >= goal;
        first_at_goal(samples, goal, earlier)
    } else {
        bound
    }
}

} // verus!
