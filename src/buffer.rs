use vstd::prelude::*;
use vstd::string::*;

verus! {

/// `n` levels of indentation, two spaces each.
pub open spec fn indentation(n: nat) -> Seq<char>
    decreases n,
{
    if n == 0 {
        Seq::empty()
    } else {
        indentation((n - 1) as nat) + "  "@
    }
}

/// A line at indentation `level`.
pub open spec fn line_at(level: usize, piece: Seq<char>) -> Seq<char> {
    indentation(level as nat) + piece + "\n"@
}

/// One level deeper, or the same level at the very end of the range.
pub open spec fn deeper(level: usize) -> usize {
    if level < usize::MAX {
        (level + 1) as usize
    } else {
        level
    }
}

/// Markup under construction, with the current indentation.
pub struct PageBuffer {
    pub buffer: String,
    pub indent_level: usize,
}

impl PageBuffer {
    pub fn new() -> (r: PageBuffer)
        ensures
            r.buffer@.len() == 0,
            r.indent_level == 0,
    {
        PageBuffer { buffer: String::new(), indent_level: 0 }
    }

    /// One level deeper; the level stops at the end of its range.
    pub fn indent(&mut self)
        ensures
            final(self).indent_level == deeper(old(self).indent_level),
            final(self).buffer == old(self).buffer,
    {
        if self.indent_level < usize::MAX {
            self.indent_level = self.indent_level + 1;
        }
    }

    /// One level shallower; the level stops at zero.
    pub fn dedent(&mut self)
        ensures
            final(self).indent_level == (if old(self).indent_level > 0 {
                (old(self).indent_level - 1) as usize
            } else {
                0
            }),
            final(self).buffer == old(self).buffer,
    {
        if self.indent_level > 0 {
            self.indent_level = self.indent_level - 1;
        }
    }

    pub fn set_indent(&mut self, level: usize)
        ensures
            final(self).indent_level == level,
            final(self).buffer == old(self).buffer,
    {
        self.indent_level = level;
    }

    pub fn push(&mut self, piece: &str)
        ensures
            final(self).buffer@ == old(self).buffer@ + piece@,
            final(self).indent_level == old(self).indent_level,
    {
        self.buffer.append(piece);
    }

    /// Appends `piece` as a line at the current indentation.
    pub fn push_line(&mut self, piece: &str)
        ensures
            final(self).buffer@ == old(self).buffer@ + line_at(old(self).indent_level, piece@),
            final(self).indent_level == old(self).indent_level,
    {
        let mut i: usize = 0;
        while i < self.indent_level
            invariant
                0 <= i <= self.indent_level,
                self.indent_level == old(self).indent_level,
                self.buffer@ == old(self).buffer@ + indentation(i as nat),
            decreases self.indent_level - i,
        {
            self.buffer.append("  ");
            i = i + 1;
            assert(indentation(i as nat) == indentation((i - 1) as nat) + "  "@);
        }
        self.buffer.append(piece);
        self.buffer.append("\n");
    }

    /// Ends the current line unless the markup already ends one.
    pub fn newline(&mut self)
        ensures
            final(self).buffer@ == (if old(self).buffer@.len() > 0 && old(self).buffer@.last() == '\n' {
                old(self).buffer@
            } else {
                old(self).buffer@ + "\n"@
            }),
            final(self).indent_level == old(self).indent_level,
    {
        let n = self.buffer.as_str().unicode_len();
        if n > 0 && self.buffer.as_str().get_char(n - 1) == '\n' {
            return;
        }
        self.buffer.append("\n");
    }

    pub fn flush(self) -> (r: String)
        ensures
            r == self.buffer,
    {
        self.buffer
    }
}

} // verus!
