//! The stack of active function calls, for error traces.
use vstd::prelude::*;
use crate::text::{dec_str, usize_to_string};
use crate::tokens::Position;

verus! {

/// One active call: the function and where it was called from.
#[derive(Debug)]
pub struct StackFrame {
    pub function_name: String,
    pub call_position: Position,
    pub file: Option<String>,
}

/// `at name (file:line:column)`, with `<unknown>` for a missing file.
pub open spec fn frame_text(f: StackFrame) -> Seq<char> {
    let loc = match f.file {
        Some(name) => name@,
        None => "<unknown>"@,
    } + seq![':'] + dec_str(f.call_position.0 as nat) + seq![':'] + dec_str(f.call_position.1 as nat);
    "  at "@ + f.function_name@ + " ("@ + loc + ")"@
}

/// The frames `lo..hi`, most recent first, one per line.
pub open spec fn rev_lines(fs: Seq<StackFrame>, lo: int, hi: int) -> Seq<char>
    decreases hi - lo,
{
    if hi <= lo {
        Seq::empty()
    } else {
        frame_text(fs[hi - 1]) + seq!['\n'] + rev_lines(fs, lo, hi - 1)
    }
}

/// The trace of a stack of frames that shows at most `max` of them.
pub open spec fn trace_text(fs: Seq<StackFrame>, max: int) -> Seq<char> {
    if fs.len() == 0 {
        Seq::empty()
    } else {
        let shown = if fs.len() < max { fs.len() as int } else { max };
        let head = "\nCall stack:\n"@ + rev_lines(fs, fs.len() - shown, fs.len() as int);
        if fs.len() > max {
            head + "  ... ("@ + dec_str((fs.len() - max) as nat) + " more frames)\n"@
        } else {
            head
        }
    }
}

fn append(s: &mut String, b: &str)
    ensures
        final(s)@ == old(s)@ + b@,
{
    s.append(b);
}

impl StackFrame {
    pub fn new(function_name: String, call_position: Position, file: Option<String>) -> (f: StackFrame)
        ensures
            f.function_name == function_name,
            f.call_position == call_position,
            f.file == file,
    {
        StackFrame { function_name, call_position, file }
    }

    /// The frame as one line of a stack trace.
    pub fn format(&self) -> (s: String)
        ensures
            s@ == frame_text(*self),
    {
        let mut loc = match &self.file {
            Some(f) => f.clone(),
            None => String::from_str("<unknown>"),
        };
        append(&mut loc, ":");
        let l = usize_to_string(self.call_position.0);
        append(&mut loc, l.as_str());
        append(&mut loc, ":");
        let c = usize_to_string(self.call_position.1);
        append(&mut loc, c.as_str());
        let mut s = String::from_str("  at ");
        append(&mut s, self.function_name.as_str());
        append(&mut s, " (");
        append(&mut s, loc.as_str());
        append(&mut s, ")");
        proof {
            reveal_strlit(":");
        }
        s
    }
}

/// The active calls, most recent last.
#[derive(Debug)]
pub struct CallStack {
    frames: Vec<StackFrame>,
    max_display_depth: usize,
}

impl CallStack {
    pub closed spec fn view(&self) -> Seq<StackFrame> {
        self.frames@
    }

    /// The most frames a trace shows.
    pub closed spec fn display_limit(&self) -> int {
        self.max_display_depth as int
    }

    pub fn new() -> (c: CallStack)
        ensures
            c.view().len() == 0,
            c.display_limit() == 10,
    {
        CallStack { frames: Vec::new(), max_display_depth: 10 }
    }

    pub fn push(&mut self, frame: StackFrame)
        ensures
            final(self).view() == old(self).view().push(frame),
            final(self).display_limit() == old(self).display_limit(),
    {
        self.frames.push(frame);
    }

    /// Removes and returns the most recent frame.
    pub fn pop(&mut self) -> (f: Option<StackFrame>)
        ensures
            old(self).view().len() == 0 ==> f is None && final(self).view() == old(self).view(),
            old(self).view().len() > 0 ==> f == Some(old(self).view().last())
                && final(self).view() == old(self).view().drop_last(),
            final(self).display_limit() == old(self).display_limit(),
    {
        self.frames.pop()
    }

    pub fn depth(&self) -> (d: usize)
        ensures
            d == self.view().len(),
    {
        self.frames.len()
    }

    pub fn frames(&self) -> (fs: &[StackFrame])
        ensures
            fs@ == self.view(),
    {
        self.frames.as_slice()
    }

    pub fn clear(&mut self)
        ensures
            final(self).view().len() == 0,
            final(self).display_limit() == old(self).display_limit(),
    {
        self.frames.clear();
    }

    /// The name of the function of the most recent frame.
    pub fn current_function(&self) -> (n: Option<&str>)
        ensures
            self.view().len() == 0 ==> n is None,
            self.view().len() > 0 ==> (n matches Some(s) && s@ == self.view().last().function_name@),
    {
        if self.frames.len() == 0 {
            None
        } else {
            Some(self.frames[self.frames.len() - 1].function_name.as_str())
        }
    }

    /// A trace of the most recent frames, newest first, and how many more there are.
    pub fn format_stack_trace(&self) -> (s: String)
        ensures
            s@ == trace_text(self.view(), self.display_limit()),
    {
        if self.frames.len() == 0 {
            return String::new();
        }
        let mut output = String::from_str("\nCall stack:\n");
        let frames_to_show = if self.frames.len() < self.max_display_depth { self.frames.len() } else { self.max_display_depth };
        let start_index = self.frames.len() - frames_to_show;
        let ghost fs = self.frames@;
        let ghost head = output@;
        let mut k = self.frames.len();
        while k > start_index
            invariant
                start_index <= k <= fs.len(),
                fs == self.frames@,
                output@ + rev_lines(fs, start_index as int, k as int) == head + rev_lines(fs, start_index as int, fs.len() as int),
            decreases k,
        {
            let line = self.frames[k - 1].format();
            let ghost before = output@;
            append(&mut output, line.as_str());
            append(&mut output, "\n");
            proof { reveal_strlit("\n"); }
            assert(output@ + rev_lines(fs, start_index as int, k - 1) =~= before + rev_lines(fs, start_index as int, k as int));
            k = k - 1;
        }
        assert(output@ =~= head + rev_lines(fs, start_index as int, fs.len() as int));
        if self.frames.len() > self.max_display_depth {
            let hidden_count = self.frames.len() - self.max_display_depth;
            append(&mut output, "  ... (");
            let n = usize_to_string(hidden_count);
            append(&mut output, n.as_str());
            append(&mut output, " more frames)\n");
        }
        output
    }
}


/// Popping right after pushing a frame gives that frame back and leaves the stack as it
/// was; the depth grows by one with each push.
pub proof fn law_push_then_pop(frames: Seq<StackFrame>, frame: StackFrame)
    ensures
        frames.push(frame).len() == frames.len() + 1,
        frames.push(frame).last() == frame,
        frames.push(frame).drop_last() == frames,
{
    assert(frames.push(frame).drop_last() =~= frames);
}


impl Default for CallStack {
    fn default() -> (c: CallStack)
        ensures
            c.view().len() == 0,
            c.display_limit() == 10,
    {
        CallStack::new()
    }
}

} // verus!
