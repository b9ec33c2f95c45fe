//! The stack of invocations that are running while a log is read.

use crate::flaw::Flaw;
use crate::line::classify;
use crate::line::classify_spec;
use crate::line::lemma_readings_take;
use crate::line::lines_bytes;
use crate::line::readings;
use crate::line::same;
use crate::line::LineKind;
use crate::line::LineModel;
use crate::line::ProgramId;
use vstd::prelude::*;
use vstd::string::StringSliceAdditionalSpecFns;

verus! {

/// One running invocation: the program and the depth its opening line gave.
#[derive(Debug, PartialEq, Eq)]
pub struct Frame {
    pub program_id: Vec<u8>,
    pub depth: u64,
}

/// The mathematical value of a [`Frame`].
pub struct FrameModel {
    pub program_id: Seq<u8>,
    pub depth: u64,
}

impl View for Frame {
    type V = FrameModel;

    open spec fn view(&self) -> FrameModel {
        FrameModel { program_id: self.program_id@, depth: self.depth }
    }
}

/// The values of a stack of frames, outermost first.
pub open spec fn frame_models(frames: Seq<Frame>) -> Seq<FrameModel> {
    Seq::new(frames.len(), |i: int| frames[i]@)
}

/// A return of `program_id` closes the innermost frame when that frame is
/// `program_id`'s. A return line names no depth, so the name decides.
pub open spec fn closes(stack: Seq<FrameModel>, program_id: Seq<u8>) -> bool {
    stack.len() > 0 && stack.last().program_id == program_id
}

/// The stack after one line. An opening line always pushes. A return that
/// closes nothing, and any other line, leave the stack as it is.
pub open spec fn step(stack: Seq<FrameModel>, line: LineModel) -> Seq<FrameModel> {
    match line {
        LineModel::Invoke { program_id, depth } => stack.push(FrameModel { program_id, depth }),
        LineModel::End { program_id, status } => if closes(stack, program_id) {
            stack.drop_last()
        } else {
            stack
        },
        LineModel::Other => stack,
    }
}

/// The stack after `lines`, read in order from `stack`.
pub open spec fn stack_after(stack: Seq<FrameModel>, lines: Seq<LineModel>) -> Seq<FrameModel>
    decreases lines.len(),
{
    if lines.len() == 0 {
        stack
    } else {
        step(stack_after(stack, lines.drop_last()), lines.last())
    }
}

/// The program that a line read at `stack` belongs to: the innermost one.
pub open spec fn scope_spec(stack: Seq<FrameModel>) -> Option<Seq<u8>> {
    if stack.len() == 0 {
        None
    } else {
        Some(stack.last().program_id)
    }
}

/// A line read at `stack` belongs to `target`.
pub open spec fn in_scope_spec(stack: Seq<FrameModel>, target: Seq<u8>) -> bool {
    scope_spec(stack) == Some(target)
}

/// What is wrong with `line` when it is read at `stack`, if anything.
pub open spec fn flaw_spec(stack: Seq<FrameModel>, line: LineModel) -> Option<Flaw> {
    match line {
        LineModel::Invoke { program_id, depth } => None,
        LineModel::End { program_id, status } => if closes(stack, program_id) {
            None
        } else {
            Some(Flaw::MalformedFrameNesting)
        },
        LineModel::Other => Some(Flaw::ParseAmbiguous),
    }
}

/// A flawed line leaves the stack as it is.
pub proof fn lemma_flaw_changes_nothing(stack: Seq<FrameModel>, line: LineModel)
    requires
        flaw_spec(stack, line).is_some(),
    ensures
        step(stack, line) == stack,
{
}

/// How many of `lines` open an invocation.
pub open spec fn opened(lines: Seq<LineModel>) -> nat
    decreases lines.len(),
{
    if lines.len() == 0 {
        0
    } else {
        opened(lines.drop_last()) + if lines.last() is Invoke {
            1nat
        } else {
            0nat
        }
    }
}

/// Whether `line`, read at `stack`, is a return that closes a frame.
pub open spec fn is_matching_end(stack: Seq<FrameModel>, line: LineModel) -> bool {
    match line {
        LineModel::End { program_id, status } => closes(stack, program_id),
        _ => false,
    }
}

/// How many of `lines`, read in order from `stack`, are returns that close a frame.
pub open spec fn closed(stack: Seq<FrameModel>, lines: Seq<LineModel>) -> nat
    decreases lines.len(),
{
    if lines.len() == 0 {
        0
    } else {
        closed(stack, lines.drop_last()) + if is_matching_end(
            stack_after(stack, lines.drop_last()),
            lines.last(),
        ) {
            1nat
        } else {
            0nat
        }
    }
}

/// The height of the stack is what it was, plus the opening lines read,
/// minus the returns that closed a frame.
pub proof fn lemma_depth_counts(stack: Seq<FrameModel>, lines: Seq<LineModel>)
    ensures
        stack_after(stack, lines).len() == stack.len() + opened(lines) - closed(stack, lines),
        closed(stack, lines) <= stack.len() + opened(lines),
    decreases lines.len(),
{
    if lines.len() > 0 {
        lemma_depth_counts(stack, lines.drop_last());
    }
}

/// An opening line raises the stack by exactly one frame, a return that
/// closes a frame lowers it by exactly one, and nothing else changes its
/// height.
pub proof fn lemma_step_height(stack: Seq<FrameModel>, line: LineModel)
    ensures
        line is Invoke ==> step(stack, line).len() == stack.len() + 1,
        is_matching_end(stack, line) ==> step(stack, line).len() == stack.len() - 1,
        !(line is Invoke) && !is_matching_end(stack, line) ==> step(stack, line) == stack,
{
}

/// From an empty stack, the height is the number of opening lines minus
/// the number of returns that closed a frame, and is never negative.
pub proof fn lemma_depth_from_empty(lines: Seq<LineModel>)
    ensures
        stack_after(Seq::empty(), lines).len() == opened(lines) - closed(Seq::empty(), lines),
        opened(lines) >= closed(Seq::empty(), lines),
{
    lemma_depth_counts(Seq::empty(), lines);
}

/// While the stack stays at least `height` high, its lowest `height`
/// frames are not touched.
pub proof fn lemma_frames_below_stay(stack: Seq<FrameModel>, lines: Seq<LineModel>, height: int)
    requires
        0 <= height <= stack.len(),
        forall|k: int|
            0 <= k <= lines.len() ==> #[trigger] stack_after(stack, lines.take(k)).len() >= height,
    ensures
        stack_after(stack, lines).take(height) == stack.take(height),
    decreases lines.len(),
{
    if lines.len() > 0 {
        let front = lines.drop_last();
        assert forall|k: int| 0 <= k <= front.len() implies #[trigger] stack_after(
            stack,
            front.take(k),
        ).len() >= height by {
            assert(front.take(k) =~= lines.take(k));
            assert(stack_after(stack, lines.take(k)).len() >= height);
        }
        lemma_frames_below_stay(stack, front, height);
        let before = stack_after(stack, front);
        let after = stack_after(stack, lines);
        assert(lines.take(lines.len() as int) =~= lines);
        assert(stack_after(stack, lines.take(lines.len() as int)).len() >= height);
        assert(front =~= lines.take(lines.len() - 1));
        assert(stack_after(stack, lines.take(lines.len() - 1)).len() >= height);
        assert(after.take(height) =~= before.take(height));
    }
}

/// After `target` is invoked, a line belongs to `target` whenever the
/// lines in between left that frame open and closed every frame that they
/// opened above it.
pub proof fn lemma_scope_inside_frame(
    stack: Seq<FrameModel>,
    target: Seq<u8>,
    depth: u64,
    between: Seq<LineModel>,
)
    requires
        forall|k: int|
            0 <= k <= between.len() ==> #[trigger] stack_after(
                step(stack, LineModel::Invoke { program_id: target, depth }),
                between.take(k),
            ).len() > stack.len(),
        stack_after(step(stack, LineModel::Invoke { program_id: target, depth }), between).len()
            == stack.len() + 1,
    ensures
        in_scope_spec(
            stack_after(step(stack, LineModel::Invoke { program_id: target, depth }), between),
            target,
        ),
        stack_after(step(stack, LineModel::Invoke { program_id: target, depth }), between)
            == stack.push(FrameModel { program_id: target, depth }),
{
    let inside = step(stack, LineModel::Invoke { program_id: target, depth });
    let now = stack_after(inside, between);
    let height = stack.len() as int + 1;
    lemma_frames_below_stay(inside, between, height);
    assert(inside.take(height) =~= inside);
    assert(now.take(height) =~= now);
}

/// A return of `program_id` right after its frame is on top undoes the
/// invocation: the lines that follow belong to whatever the lines before
/// the invocation belonged to.
pub proof fn lemma_scope_after_return(
    stack: Seq<FrameModel>,
    program_id: Seq<u8>,
    depth: u64,
    status: crate::line::EndStatus,
)
    ensures
        step(
            stack.push(FrameModel { program_id, depth }),
            LineModel::End { program_id, status },
        ) == stack,
        scope_spec(
            step(stack.push(FrameModel { program_id, depth }), LineModel::End { program_id, status }),
        ) == scope_spec(stack),
{
    assert(stack.push(FrameModel { program_id, depth }).drop_last() =~= stack);
}

/// Once the return of `target` has closed the frame of its invocation,
/// the stack is what it was before the invocation. A line that follows
/// belongs to `target` only if the lines before the invocation did.
pub proof fn lemma_scope_after_matching_return(
    stack: Seq<FrameModel>,
    target: Seq<u8>,
    depth: u64,
    between: Seq<LineModel>,
    status: crate::line::EndStatus,
)
    requires
        forall|k: int|
            0 <= k <= between.len() ==> #[trigger] stack_after(
                step(stack, LineModel::Invoke { program_id: target, depth }),
                between.take(k),
            ).len() > stack.len(),
        stack_after(step(stack, LineModel::Invoke { program_id: target, depth }), between).len()
            == stack.len() + 1,
    ensures
        stack_after(
            step(stack, LineModel::Invoke { program_id: target, depth }),
            between.push(LineModel::End { program_id: target, status }),
        ) == stack,
        in_scope_spec(
            stack_after(
                step(stack, LineModel::Invoke { program_id: target, depth }),
                between.push(LineModel::End { program_id: target, status }),
            ),
            target,
        ) == in_scope_spec(stack, target),
{
    let end = LineModel::End { program_id: target, status };
    lemma_scope_inside_frame(stack, target, depth, between);
    lemma_scope_after_return(stack, target, depth, status);
    assert(between.push(end).drop_last() =~= between);
}

/// The stack of running invocations.
pub struct FrameTracker {
    stack: Vec<Frame>,
}

impl View for FrameTracker {
    type V = Seq<FrameModel>;

    closed spec fn view(&self) -> Seq<FrameModel> {
        frame_models(self.stack@)
    }
}

impl FrameTracker {
    /// A tracker with no invocation running.
    pub fn new() -> (tracker: Self)
        ensures
            tracker@ == Seq::<FrameModel>::empty(),
    {
        let tracker = FrameTracker { stack: Vec::new() };
        assert(tracker@ =~= Seq::<FrameModel>::empty());
        tracker
    }

    /// The number of invocations that are running.
    pub fn depth(&self) -> (height: usize)
        ensures
            height == self@.len(),
    {
        self.stack.len()
    }

    /// The program that a line read now belongs to.
    pub fn scope(&self) -> (id: Option<&Vec<u8>>)
        ensures
            match id {
                Some(program_id) => scope_spec(self@) == Some(program_id@),
                None => scope_spec(self@).is_none(),
            },
    {
        let n: usize = self.stack.len();
        if n == 0 {
            None
        } else {
            Some(&self.stack[n - 1].program_id)
        }
    }

    /// Whether a line read now belongs to `target`.
    pub fn in_scope(&self, target: &[u8]) -> (inside: bool)
        ensures
            inside == in_scope_spec(self@, target@),
    {
        match self.scope() {
            Some(program_id) => same(program_id.as_slice(), target),
            None => false,
        }
    }

    /// What is wrong with a line that has been read, if it were taken in
    /// now.
    pub fn check(&self, kind: &LineKind) -> (flaw: Option<Flaw>)
        ensures
            flaw == flaw_spec(self@, kind@),
    {
        match kind {
            LineKind::Invoke { program_id, depth } => None,
            LineKind::End { program_id, status } => {
                if self.in_scope(program_id.as_slice()) {
                    None
                } else {
                    Some(Flaw::MalformedFrameNesting)
                }
            },
            LineKind::Other => Some(Flaw::ParseAmbiguous),
        }
    }

    /// Takes in a line that has been read.
    pub fn apply(&mut self, kind: LineKind)
        ensures
            final(self)@ == step(old(self)@, kind@),
    {
        match kind {
            LineKind::Invoke { program_id, depth } => {
                self.stack.push(Frame { program_id, depth });
                assert(self@ =~= step(old(self)@, kind@));
            },
            LineKind::End { program_id, status } => {
                if self.in_scope(program_id.as_slice()) {
                    self.stack.pop();
                    assert(self@ =~= step(old(self)@, kind@));
                }
            },
            LineKind::Other => {},
        }
    }

    /// Reads `line` and takes it in.
    pub fn observe(&mut self, line: &str)
        ensures
            final(self)@ == step(old(self)@, classify_spec(line.spec_bytes())),
    {
        self.apply(classify(line));
    }

    /// Reads `lines` in order and takes each of them in.
    pub fn observe_all(&mut self, lines: &Vec<String>)
        ensures
            final(self)@ == stack_after(old(self)@, readings(lines_bytes(lines@))),
    {
        let ghost all = lines_bytes(lines@);
        let mut i: usize = 0;
        assert(readings(all.take(0)) =~= Seq::<LineModel>::empty());
        while i < lines.len()
            invariant
                i <= lines@.len(),
                all == lines_bytes(lines@),
                self@ == stack_after(old(self)@, readings(all.take(i as int))),
            decreases lines@.len() - i,
        {
            proof {
                lemma_readings_take(all, i as int);
            }
            self.observe(lines[i].as_str());
            i += 1;
        }
        assert(all.take(i as int) =~= all);
    }

    /// The program that `line` belongs to, which is the innermost one
    /// running when the line is reached; the line is then taken in.
    pub fn scope_of(&mut self, line: &str) -> (id: Option<ProgramId>)
        ensures
            match id {
                Some(program_id) => scope_spec(old(self)@) == Some(program_id@),
                None => scope_spec(old(self)@).is_none(),
            },
            final(self)@ == step(old(self)@, classify_spec(line.spec_bytes())),
    {
        let id = match self.scope() {
            Some(program_id) => Some(program_id.clone()),
            None => None,
        };
        self.observe(line);
        id
    }
}

} // verus!
