//! Console abstractions: markup values, message buffers, and human-readable
//! quantities.
//!
//! A console is a sink for marked-up messages. The environment-backed
//! console lives outside this library; the buffer console below stores
//! messages in memory and is the one the library itself can reason about.

use vstd::prelude::*;

verus! {

/// One style applied to a stretch of markup.
#[derive(Debug, Clone, PartialEq, Eq)]
pub enum MarkupElement {
    Emphasis,
    Dim,
    Italic,
    Underline,
    Error,
    Success,
    Warn,
    Info,
    Debug,
    Trace,
    Inverse,
    Hyperlink(String),
}

/// One stretch of text with the styles that apply to it.
#[derive(Debug, Clone)]
pub struct MarkupNode {
    pub elements: Vec<MarkupElement>,
    pub content: String,
}

/// An owned piece of markup: styled stretches in order.
#[derive(Debug, Clone)]
pub struct MarkupBuf(pub Vec<MarkupNode>);

/// The output stream a message belongs to.
#[derive(Debug, Clone, Copy, PartialEq, Eq, Structural)]
pub enum LogLevel {
    /// The error stream.
    Error,
    /// The ordinary log stream.
    Log,
}

/// How a console should use color.
#[derive(Debug, Clone)]
pub enum ColorMode {
    /// Always print color.
    Enabled,
    /// Never print color.
    Disabled,
    /// Decide from the attached streams.
    Auto,
}

/// A stack of markup element groups applied to the text being printed,
/// innermost last.
#[derive(Debug)]
pub enum MarkupElements {
    Root,
    Node(Box<MarkupElements>, Vec<MarkupElement>),
}

impl MarkupElements {
    /// The element groups from the root to this node, in order.
    pub open spec fn groups(self) -> Seq<Vec<MarkupElement>>
        decreases self,
    {
        match self {
            MarkupElements::Root => Seq::empty(),
            MarkupElements::Node(parent, elem) => parent.groups().push(elem),
        }
    }

    /// The element groups depth-first: every ancestor group from the root
    /// down, this node's group last.
    pub fn for_each(&self) -> (r: Vec<&Vec<MarkupElement>>)
        ensures
            r@.len() == self.groups().len(),
            forall|i: int| 0 <= i < r@.len() ==> (#[trigger] r@[i])@ == self.groups()[i]@,
        decreases *self,
    {
        match self {
            MarkupElements::Root => Vec::new(),
            MarkupElements::Node(parent, elem) => {
                let mut r = parent.for_each();
                r.push(elem);
                r
            },
        }
    }

    /// The element groups with this node's group first, followed by every
    /// ancestor group from the root down.
    pub fn for_each_rev(&self) -> (r: Vec<&Vec<MarkupElement>>)
        ensures
            r@.len() == self.rev_groups().len(),
            forall|i: int| 0 <= i < r@.len() ==> (#[trigger] r@[i])@ == self.rev_groups()[i]@,
    {
        match self {
            MarkupElements::Root => Vec::new(),
            MarkupElements::Node(parent, elem) => {
                let mut r: Vec<&Vec<MarkupElement>> = Vec::new();
                r.push(elem);
                let mut rest = parent.for_each();
                let n = rest.len();
                let mut i: usize = 0;
                while i < n
                    invariant
                        i <= n,
                        n == rest@.len(),
                        r@.len() == i + 1,
                        forall|j: int| 1 <= j < r@.len() ==> #[trigger] r@[j] == rest@[j - 1],
                        r@[0]@ == elem@,
                    decreases n - i,
                {
                    r.push(rest[i]);
                    i = i + 1;
                }
                r
            },
        }
    }

    /// The element groups in the order `for_each_rev` yields them.
    pub open spec fn rev_groups(self) -> Seq<Vec<MarkupElement>> {
        match self {
            MarkupElements::Root => Seq::empty(),
            MarkupElements::Node(parent, elem) => seq![elem] + parent.groups(),
        }
    }
}

/// An abstraction over printing markup to an output: a terminal, a file, a
/// memory buffer. Implementations outside this library may print anywhere.
pub trait Console: Sized {
    /// Prints a message to the chosen stream, with a trailing line break.
    fn println(&mut self, level: LogLevel, args: MarkupBuf);

    /// Prints a message to the chosen stream.
    fn print(&mut self, level: LogLevel, args: MarkupBuf);

    /// Reads from the console's input source, if it holds anything.
    fn read(&mut self) -> Option<String>;
}

/// Convenience printing on any console.
pub trait ConsoleExt: Console {
    /// Prints a message on the error stream, with a line break.
    fn error(&mut self, args: MarkupBuf);

    /// Prints a message on the log stream, with a line break.
    fn log(&mut self, args: MarkupBuf);

    /// Prints a message on the log stream, without a line break.
    fn append(&mut self, args: MarkupBuf);
}

impl<T: Console> ConsoleExt for T {
    fn error(&mut self, args: MarkupBuf) {
        self.println(LogLevel::Error, args);
    }

    fn log(&mut self, args: MarkupBuf) {
        self.println(LogLevel::Log, args);
    }

    fn append(&mut self, args: MarkupBuf) {
        self.print(LogLevel::Log, args);
    }
}

/// One message kept by a buffer console.
#[derive(Debug, Clone)]
pub struct Message {
    pub level: LogLevel,
    pub content: MarkupBuf,
}

/// A console that stores every printed message in memory.
#[derive(Debug)]
pub struct BufferConsole {
    pub out_buffer: Vec<Message>,
    pub in_buffer: Vec<String>,
    pub print_json: bool,
}

impl Default for BufferConsole {
    fn default() -> (r: BufferConsole)
        ensures
            r.out_buffer@.len() == 0,
            r.in_buffer@.len() == 0,
            !r.print_json,
    {
        BufferConsole { out_buffer: Vec::new(), in_buffer: Vec::new(), print_json: false }
    }
}

impl BufferConsole {
    /// The console switched to JSON output.
    pub fn with_json(self) -> (r: BufferConsole)
        ensures
            r.print_json,
            r.out_buffer == self.out_buffer,
            r.in_buffer == self.in_buffer,
    {
        BufferConsole { out_buffer: self.out_buffer, in_buffer: self.in_buffer, print_json: true }
    }
}

impl Console for BufferConsole {
    fn println(&mut self, level: LogLevel, args: MarkupBuf) {
        self.out_buffer.push(Message { level, content: args });
    }

    fn print(&mut self, level: LogLevel, args: MarkupBuf) {
        self.out_buffer.push(Message { level, content: args });
    }

    fn read(&mut self) -> Option<String> {
        if self.in_buffer.len() == 0 {
            None
        } else {
            Some(self.in_buffer[0].clone())
        }
    }
}

/// The character for one decimal digit.
pub open spec fn digit_char(d: nat) -> char {
    ((48 + (d % 10)) as u8) as char
}

/// The decimal representation of a number.
pub open spec fn spec_decimal(n: nat) -> Seq<char>
    decreases n,
{
    if n < 10 {
        seq![digit_char(n)]
    } else {
        spec_decimal(n / 10).push(digit_char(n % 10))
    }
}

/// Appends the decimal digits of `n`.
fn push_decimal(n: usize, out: &mut Vec<char>)
    ensures
        final(out)@ == old(out)@ + spec_decimal(n as nat),
    decreases n,
{
    if n < 10 {
        out.push(((48 + (n as u32) % 10) as u8) as char);
        proof {
            assert(out@ =~= old(out)@ + spec_decimal(n as nat));
        }
    } else {
        push_decimal(n / 10, out);
        out.push(((48 + ((n % 10) as u32)) as u8) as char);
        proof {
            assert(out@ =~= old(out)@ + spec_decimal(n as nat));
        }
    }
}

/// The scaled quantity and unit index a byte count is displayed with: the
/// count is divided by 1024 until one more division would fall below 1024,
/// through at most the four binary units; the reported quantity is then
/// shown in the next unit up.
pub open spec fn spec_scaled(v: nat, i: nat) -> (nat, nat)
    decreases 4 - i,
{
    if i >= 4 {
        (v, 3)
    } else if v / 1024 < 1024 {
        (v, i)
    } else {
        spec_scaled(v / 1024, i + 1)
    }
}

/// The quantity in tenths of the next unit, rounded to nearest with ties
/// to even, as the exact decimal rendering rounds.
pub open spec fn spec_tenths(v: nat) -> nat {
    let q = (v * 10) / 1024;
    let r = (v * 10) % 1024;
    if r * 2 > 1024 {
        q + 1
    } else if r * 2 == 1024 {
        if q % 2 == 1 {
            q + 1
        } else {
            q
        }
    } else {
        q
    }
}

/// The unit letter for a scale index.
pub open spec fn spec_unit_char(i: nat) -> char {
    if i == 0 {
        'K'
    } else if i == 1 {
        'M'
    } else if i == 2 {
        'G'
    } else {
        'T'
    }
}

/// How a byte count displays: plain bytes below 1024, one decimal place of
/// the matching binary unit from there on.
pub open spec fn spec_bytes_display(v: nat) -> Seq<char> {
    if v < 1024 {
        spec_decimal(v) + seq![' ', 'B']
    } else {
        let scaled = spec_scaled(v, 0);
        let t = spec_tenths(scaled.0);
        spec_decimal(t / 10) + seq!['.'] + seq![digit_char(t % 10)] + seq![' '] + seq![
            spec_unit_char(scaled.1),
        ] + seq!['i', 'B']
    }
}

/// A byte count, displayed human-readably.
#[derive(Clone, Copy, Debug)]
pub struct Bytes(pub usize);

impl Bytes {
    /// The human-readable rendering: `27 B`, `1.0 KiB`, `6.8 MiB`, ...
    pub fn display_string(&self) -> (r: String)
        ensures
            r@ == spec_bytes_display(self.0 as nat),
    {
        let v = self.0;
        let mut out: Vec<char> = Vec::new();
        if v < 1024 {
            push_decimal(v, &mut out);
            out.push(' ');
            out.push('B');
            proof {
                assert(out@ =~= spec_bytes_display(self.0 as nat));
            }
            return crate::lexer::chars_to_string(&out);
        }
        // Scale down by binary units.
        let mut value = v;
        let mut i: usize = 0;
        loop
            invariant_except_break
                spec_scaled(v as nat, 0) == spec_scaled(value as nat, i as nat),
            invariant
                i <= 4,
                value <= v,
                i >= 1 ==> value <= usize::MAX / 1024,
            ensures
                (value as nat, i as nat) == spec_scaled(v as nat, 0),
                i <= 3,
                value < 1024 * 1024 || value <= usize::MAX / 1024,
            decreases 4 - i,
        {
            if i >= 4 {
                proof {
                    assert(spec_scaled(value as nat, i as nat) == (value as nat, 3nat));
                }
                i = 3;
                break;
            }
            if value / 1024 < 1024 {
                proof {
                    assert(spec_scaled(value as nat, i as nat) == (value as nat, i as nat));
                }
                break;
            }
            value = value / 1024;
            i = i + 1;
        }
        // One decimal place, rounded to nearest, ties to even.
        proof {
            assert(value * 10 <= usize::MAX) by {
                if value < 1024 * 1024 {
                } else {
                    assert(value <= usize::MAX / 1024);
                    assert((usize::MAX / 1024) * 10 <= usize::MAX);
                }
            }
        }
        let q = (value * 10) / 1024;
        let rem = (value * 10) % 1024;
        let t = if rem * 2 > 1024 {
            q + 1
        } else if rem * 2 == 1024 {
            if q % 2 == 1 {
                q + 1
            } else {
                q
            }
        } else {
            q
        };
        push_decimal(t / 10, &mut out);
        out.push('.');
        out.push(((48 + ((t % 10) as u32)) as u8) as char);
        out.push(' ');
        let unit = if i == 0 {
            'K'
        } else if i == 1 {
            'M'
        } else if i == 2 {
            'G'
        } else {
            'T'
        };
        out.push(unit);
        out.push('i');
        out.push('B');
        proof {
            assert(out@ =~= spec_bytes_display(self.0 as nat));
        }
        crate::lexer::chars_to_string(&out)
    }
}

} // verus!
