//! How deep a TOML text nests, judged before it is read.
//!
//! Reading a text costs the reader one level of its stack for every array and
//! inline table that is open, and one for every segment of a table header or
//! of a dotted key. A text is therefore weighed first, and one that weighs too
//! much is refused without being read.
//!
//! The weighing follows the text as the reader does. It knows the four kinds
//! of string and the comment, in which nothing weighs. Outside of them an
//! opening bracket or brace weighs one until it is closed, except the
//! brackets of a table header. A dot weighs one where it stands in a table
//! header or in a key, not in a number or a date: the dots of a header weigh
//! to the end of its line, and those of a key until its value has ended.

use vstd::prelude::*;
use vstd::string::*;
use vstd::utf8::*;
use crate::document::{Node, parsed, shape, parse_document};
use crate::error::{BuildpackError, ErrorKind};

verus! {

/// The greatest weight of a text that is read.
pub const NESTING_LIMIT: usize = 64;

/// Where the weighing stands among strings and comments.
#[derive(Debug, Clone, Copy, PartialEq, Eq, Structural)]
pub enum Lex {
    /// Outside strings and comments.
    Plain,
    /// Inside a comment.
    Comment,
    /// After one quote that opens a string.
    Opened,
    /// After two quotes: an empty string, or the start of three.
    OpenedTwice,
    /// Inside a string that ends on its line.
    Single,
    /// After a backslash in such a string.
    SingleEscape,
    /// Inside a string in three quotes.
    Multi,
    /// After a backslash in such a string.
    MultiEscape,
    /// After the three quotes that close such a string, of which up to two
    /// more belong to it.
    Closing,
}

/// What the weighing knows after some bytes of a text.
pub struct Scan {
    pub lex: Lex,
    /// Whether the string at hand is in double quotes.
    pub basic: bool,
    /// The quotes just seen in a row, inside or behind a string in three
    /// quotes.
    pub run: nat,
    /// Whether a key or a table header is being read.
    pub key: bool,
    /// The arrays and inline tables that are open, outermost first: whether
    /// it is an inline table, and what the dots weighed when it was opened.
    pub stack: Seq<(bool, nat)>,
    /// What the dots of the header or key of the line weigh.
    pub line_dots: nat,
    /// What the dots of the keys of the open inline tables weigh.
    pub inner_dots: nat,
    /// The greatest weight so far.
    pub peak: nat,
}

/// The weighing before the first byte.
pub open spec fn start() -> Scan {
    Scan {
        lex: Lex::Plain,
        basic: false,
        run: 0,
        key: true,
        stack: Seq::empty(),
        line_dots: 0,
        inner_dots: 0,
        peak: 0,
    }
}

/// The quote that ends the string at hand.
pub open spec fn delimiter(basic: bool) -> u8 {
    if basic {
        34
    } else {
        39
    }
}

/// Whether `byte` is a double or a single quote.
pub open spec fn is_quote(byte: u8) -> bool {
    byte == 34 || byte == 39
}

/// What a byte outside strings and comments opens: a comment, a string, or
/// nothing.
pub open spec fn opened_by(byte: u8) -> Lex {
    if byte == 35 {
        Lex::Comment
    } else if is_quote(byte) {
        Lex::Opened
    } else {
        Lex::Plain
    }
}

/// Where the weighing stands among strings and comments after `byte`.
pub open spec fn lex_after(scan: Scan, byte: u8) -> Lex {
    let ends = byte == delimiter(scan.basic);
    let escapes = scan.basic && byte == 92;
    match scan.lex {
        Lex::Plain => opened_by(byte),
        Lex::Comment => if byte == 10 {
            Lex::Plain
        } else {
            Lex::Comment
        },
        Lex::Opened => if ends {
            Lex::OpenedTwice
        } else if escapes {
            Lex::SingleEscape
        } else {
            Lex::Single
        },
        Lex::OpenedTwice => if ends {
            Lex::Multi
        } else {
            opened_by(byte)
        },
        Lex::Single => if ends {
            Lex::Plain
        } else if escapes {
            Lex::SingleEscape
        } else {
            Lex::Single
        },
        Lex::SingleEscape => Lex::Single,
        Lex::Multi => if ends {
            if scan.run == 2 {
                Lex::Closing
            } else {
                Lex::Multi
            }
        } else if escapes {
            Lex::MultiEscape
        } else {
            Lex::Multi
        },
        Lex::MultiEscape => Lex::Multi,
        Lex::Closing => if ends {
            if scan.run == 0 {
                Lex::Closing
            } else {
                Lex::Plain
            }
        } else {
            opened_by(byte)
        },
    }
}

/// The quotes in a row after `byte`.
pub open spec fn run_after(scan: Scan, byte: u8) -> nat {
    let ends = byte == delimiter(scan.basic);
    match scan.lex {
        Lex::Multi => if ends && scan.run < 2 {
            scan.run + 1
        } else {
            0
        },
        Lex::Closing => if ends && scan.run == 0 {
            1
        } else {
            0
        },
        _ => 0,
    }
}

/// Which quotes the string at hand is in after `byte`.
pub open spec fn basic_after(scan: Scan, byte: u8) -> bool {
    if lex_after(scan, byte) == Lex::Opened {
        byte == 34
    } else {
        scan.basic
    }
}

/// Whether `byte` stands outside strings and comments: it is no quote and no
/// comment sign, and before it no string or comment is open; or it is the
/// line end that closes a comment.
pub open spec fn outside(scan: Scan, byte: u8) -> bool {
    match scan.lex {
        Lex::Plain => opened_by(byte) == Lex::Plain,
        Lex::Comment => byte == 10,
        Lex::OpenedTwice | Lex::Closing => byte != delimiter(scan.basic) && opened_by(byte)
            == Lex::Plain,
        _ => false,
    }
}

/// Whether a bracket that opens here is the bracket of a table header: a key
/// is awaited and nothing is open.
pub open spec fn in_header(scan: Scan) -> bool {
    scan.key && scan.stack.len() == 0
}

/// Whether a key or a table header is being read after `byte`: from the
/// start of a line or an inline table and from the comma in one, up to the
/// equals sign.
pub open spec fn key_after(scan: Scan, byte: u8) -> bool {
    if byte == 10 {
        scan.key || scan.stack.len() == 0
    } else if byte == 61 {
        false
    } else if byte == 44 {
        if scan.stack.len() > 0 {
            scan.stack.last().0
        } else {
            scan.key
        }
    } else if byte == 123 {
        true
    } else if byte == 91 {
        in_header(scan)
    } else {
        scan.key
    }
}

/// The arrays and inline tables that are open after `byte`.
pub open spec fn stack_after(scan: Scan, byte: u8) -> Seq<(bool, nat)> {
    if byte == 123 {
        scan.stack.push((true, scan.inner_dots))
    } else if byte == 91 && !in_header(scan) {
        scan.stack.push((false, scan.inner_dots))
    } else if (byte == 93 || byte == 125) && scan.stack.len() > 0 {
        scan.stack.drop_last()
    } else {
        scan.stack
    }
}

/// What the dots of the header or key of the line weigh after `byte`: one
/// more after a dot in it, nothing after the end of the line.
pub open spec fn line_dots_after(scan: Scan, byte: u8) -> nat {
    if byte == 10 && scan.stack.len() == 0 {
        0
    } else if byte == 46 && scan.key && scan.stack.len() == 0 {
        scan.line_dots + 1
    } else {
        scan.line_dots
    }
}

/// What the dots of the keys of the open inline tables weigh after `byte`:
/// one more after a dot in such a key, and what they weighed when the array
/// or inline table was opened after it is closed or its next key begins.
pub open spec fn inner_dots_after(scan: Scan, byte: u8) -> nat {
    if scan.stack.len() == 0 {
        scan.inner_dots
    } else if byte == 46 && scan.key {
        scan.inner_dots + 1
    } else if byte == 93 || byte == 125 || (byte == 44 && scan.stack.last().0) {
        scan.stack.last().1
    } else {
        scan.inner_dots
    }
}

/// What the text weighs at this point: the arrays and inline tables that are
/// open, and the dots of the header or the keys that lead here.
pub open spec fn load(scan: Scan) -> nat {
    scan.stack.len() + scan.line_dots + scan.inner_dots
}

/// The weighing after one more byte.
pub open spec fn step(scan: Scan, byte: u8) -> Scan {
    let read = if outside(scan, byte) {
        Scan {
            key: key_after(scan, byte),
            stack: stack_after(scan, byte),
            line_dots: line_dots_after(scan, byte),
            inner_dots: inner_dots_after(scan, byte),
            ..scan
        }
    } else {
        scan
    };
    Scan {
        lex: lex_after(scan, byte),
        basic: basic_after(scan, byte),
        run: run_after(scan, byte),
        peak: if load(read) > scan.peak {
            load(read)
        } else {
            scan.peak
        },
        ..read
    }
}

/// The weighing after the bytes `bytes`.
pub open spec fn scan(bytes: Seq<u8>) -> Scan
    decreases bytes.len(),
{
    if bytes.len() == 0 {
        start()
    } else {
        step(scan(bytes.drop_last()), bytes.last())
    }
}

/// The weight of a text: the most that it weighs at any point.
pub open spec fn weight(text: Seq<char>) -> nat {
    scan(encode_utf8(text)).peak
}

/// A weight as far as it is counted: no further than one above the limit.
pub open spec fn counted(weight: nat) -> nat {
    if weight > NESTING_LIMIT {
        (NESTING_LIMIT + 1) as nat
    } else {
        weight
    }
}

/// What the stack of the weighing holds, as numbers without bound.
pub open spec fn lifted(stack: Seq<(bool, usize)>) -> Seq<(bool, nat)> {
    Seq::new(stack.len(), |i: int| (stack[i].0, stack[i].1 as nat))
}

/// A text weighs at no point more than its weight so far.
pub proof fn lemma_load_within_peak(bytes: Seq<u8>)
    ensures
        load(scan(bytes)) <= scan(bytes).peak,
        scan(bytes).run <= 2,
    decreases bytes.len(),
{
    if bytes.len() > 0 {
        lemma_load_within_peak(bytes.drop_last());
    }
}

/// The weight of the first bytes of a text is no more than that of the text.
pub proof fn lemma_peak_grows(bytes: Seq<u8>, n: int)
    requires
        0 <= n <= bytes.len(),
    ensures
        scan(bytes.take(n)).peak <= scan(bytes).peak,
    decreases bytes.len() - n,
{
    if n == bytes.len() {
        assert(bytes.take(n) =~= bytes);
    } else {
        assert(bytes.take(n + 1).drop_last() =~= bytes.take(n));
        lemma_peak_grows(bytes, n + 1);
    }
}

/// The weight of `text`, counted no further than one above the limit.
pub fn nesting_weight(text: &str) -> (heaviest: usize)
    ensures
        heaviest == counted(weight(text@)),
{
    let bytes = text.as_bytes();
    let mut lex = Lex::Plain;
    let mut basic = false;
    let mut run: usize = 0;
    let mut key = true;
    let mut stack: Vec<(bool, usize)> = Vec::new();
    let mut line_dots: usize = 0;
    let mut inner_dots: usize = 0;
    let mut peak: usize = 0;
    let mut i: usize = 0;
    proof {
        assert(lifted(stack@) =~= Seq::empty());
    }
    while i < bytes.len()
        invariant
            bytes@ == encode_utf8(text@),
            i <= bytes@.len(),
            peak <= NESTING_LIMIT,
            forall|k: int| 0 <= k < stack@.len() ==> (#[trigger] stack@[k]).1 <= NESTING_LIMIT,
            scan(bytes@.take(i as int)) == (Scan {
                lex,
                basic,
                run: run as nat,
                key,
                stack: lifted(stack@),
                line_dots: line_dots as nat,
                inner_dots: inner_dots as nat,
                peak: peak as nat,
            }),
        decreases bytes@.len() - i,
    {
        let byte = bytes[i];
        let ghost before = scan(bytes@.take(i as int));
        let ghost held = stack@;
        proof {
            let first = bytes@.take(i + 1);
            assert(first.drop_last() =~= bytes@.take(i as int));
            assert(first.last() == byte);
            lemma_load_within_peak(bytes@.take(i as int));
            if stack@.len() > 0 {
                assert(lifted(stack@).last() == (stack@.last().0, stack@.last().1 as nat));
            }
        }
        let ends = byte == (if basic {
            34
        } else {
            39
        });
        let escapes = basic && byte == 92;
        let opens = if byte == 35 {
            Lex::Comment
        } else if byte == 34 || byte == 39 {
            Lex::Opened
        } else {
            Lex::Plain
        };
        let plain = matches!(opens, Lex::Plain);
        let is_outside = match lex {
            Lex::Plain => plain,
            Lex::Comment => byte == 10,
            Lex::OpenedTwice | Lex::Closing => !ends && plain,
            _ => false,
        };
        if is_outside {
            let open = stack.len();
            let header = key && open == 0;
            if byte == 10 {
                if open == 0 {
                    key = true;
                    line_dots = 0;
                }
            } else if byte == 61 {
                key = false;
            } else if byte == 44 {
                if open > 0 {
                    key = stack[open - 1].0;
                    if key {
                        inner_dots = stack[open - 1].1;
                    }
                }
            } else if byte == 123 {
                stack.push((true, inner_dots));
                key = true;
            } else if byte == 91 {
                if !header {
                    stack.push((false, inner_dots));
                    key = false;
                }
            } else if byte == 93 || byte == 125 {
                if open > 0 {
                    inner_dots = stack[open - 1].1;
                    stack.pop();
                }
            } else if byte == 46 {
                if key {
                    if open == 0 {
                        line_dots = line_dots + 1;
                    } else {
                        inner_dots = inner_dots + 1;
                    }
                }
            }
        }
        let next = match lex {
            Lex::Plain => opens,
            Lex::Comment => if byte == 10 {
                Lex::Plain
            } else {
                Lex::Comment
            },
            Lex::Opened => if ends {
                Lex::OpenedTwice
            } else if escapes {
                Lex::SingleEscape
            } else {
                Lex::Single
            },
            Lex::OpenedTwice => if ends {
                Lex::Multi
            } else {
                opens
            },
            Lex::Single => if ends {
                Lex::Plain
            } else if escapes {
                Lex::SingleEscape
            } else {
                Lex::Single
            },
            Lex::SingleEscape => Lex::Single,
            Lex::Multi => if ends {
                if run == 2 {
                    Lex::Closing
                } else {
                    Lex::Multi
                }
            } else if escapes {
                Lex::MultiEscape
            } else {
                Lex::Multi
            },
            Lex::MultiEscape => Lex::Multi,
            Lex::Closing => if ends {
                if run == 0 {
                    Lex::Closing
                } else {
                    Lex::Plain
                }
            } else {
                opens
            },
        };
        run =
        match lex {
            Lex::Multi => if ends && run < 2 {
                run + 1
            } else {
                0
            },
            Lex::Closing => if ends && run == 0 {
                1
            } else {
                0
            },
            _ => 0,
        };
        if matches!(next, Lex::Opened) {
            basic = byte == 34;
        }
        lex = next;
        proof {
            assert(lifted(stack@) =~= step(before, byte).stack);
        }
        let load = stack.len() + line_dots + inner_dots;
        if load > NESTING_LIMIT {
            proof {
                lemma_peak_grows(bytes@, i + 1);
            }
            return NESTING_LIMIT + 1;
        }
        if load > peak {
            peak = load;
        }
        i += 1;
    }
    proof {
        assert(bytes@.take(bytes@.len() as int) =~= bytes@);
    }
    peak
}

/// Why a text gives no document.
pub enum Refusal {
    /// The text weighs more than [`NESTING_LIMIT`].
    TooDeep,
    /// The text is not TOML.
    NotToml,
}

/// The document that a text gives: none for a text that weighs too much, and
/// none for a text that is not TOML.
pub open spec fn decoded(text: Seq<char>) -> Result<Node, Refusal> {
    if weight(text) > NESTING_LIMIT {
        Err(Refusal::TooDeep)
    } else {
        match parsed(text) {
            Some(node) => Ok(node),
            None => Err(Refusal::NotToml),
        }
    }
}

/// Whether `error` tells of `refusal`.
pub open spec fn refuses(error: BuildpackError, refusal: Refusal) -> bool {
    match refusal {
        Refusal::TooDeep => error.cause() is TooDeep,
        Refusal::NotToml => error.is_decode_failure(),
    }
}

/// The document that the text `text` gives. A text that weighs too much is
/// refused without being read.
pub fn decode(text: &str) -> (outcome: Result<toml::Value, BuildpackError>)
    ensures
        match outcome {
            Ok(value) => decoded(text@) == Ok::<Node, Refusal>(shape(value)),
            Err(error) => decoded(text@) is Err && refuses(error, decoded(text@)->Err_0),
        },
{
    if nesting_weight(text) > NESTING_LIMIT {
        return Err(BuildpackError::new(ErrorKind::TooDeep));
    }
    match parse_document(text) {
        Ok(value) => Ok(value),
        Err(error) => Err(BuildpackError::new(ErrorKind::TomlDe(error))),
    }
}

} // verus!
