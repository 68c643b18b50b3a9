//! Lexical normalization of SQL text.
//!
//! Normalization blanks out everything that sits inside a single- or
//! double-quoted string literal, a `--` line comment, or a `/* */` block
//! comment, so that keyword scanning never matches masked text.  The quote
//! characters and the comment characters themselves become blanks; the
//! newline that ends a line comment passes through; a whole block comment
//! collapses to a single blank, and an unterminated block comment consumes
//! the rest of the input and contributes nothing.

use vstd::prelude::*;

verus! {

/// The scanner's mode: outside any literal or comment, inside a quoted
/// literal, or inside one of the two comment forms.
#[derive(Clone, Copy, PartialEq, Eq, Structural, Debug)]
pub enum ScanMode {
    Normal,
    SingleQuote,
    DoubleQuote,
    LineComment,
    BlockComment,
}

/// What the normalizer emits for the input suffix `s` entered in mode `m`.
pub open spec fn scan(s: Seq<char>, m: ScanMode) -> Seq<char>
    decreases s.len(),
{
    if s.len() == 0 {
        Seq::empty()
    } else {
        match m {
            ScanMode::Normal => {
                if s[0] == '\'' {
                    seq![' '] + scan(s.skip(1), ScanMode::SingleQuote)
                } else if s[0] == '"' {
                    seq![' '] + scan(s.skip(1), ScanMode::DoubleQuote)
                } else if s[0] == '-' && s.len() >= 2 && s[1] == '-' {
                    seq![' ', ' '] + scan(s.skip(2), ScanMode::LineComment)
                } else if s[0] == '/' && s.len() >= 2 && s[1] == '*' {
                    scan(s.skip(2), ScanMode::BlockComment)
                } else {
                    seq![s[0]] + scan(s.skip(1), ScanMode::Normal)
                }
            },
            ScanMode::SingleQuote => {
                if s[0] == '\'' {
                    seq![' '] + scan(s.skip(1), ScanMode::Normal)
                } else {
                    seq![' '] + scan(s.skip(1), ScanMode::SingleQuote)
                }
            },
            ScanMode::DoubleQuote => {
                if s[0] == '"' {
                    seq![' '] + scan(s.skip(1), ScanMode::Normal)
                } else {
                    seq![' '] + scan(s.skip(1), ScanMode::DoubleQuote)
                }
            },
            ScanMode::LineComment => {
                if s[0] == '\n' {
                    seq!['\n'] + scan(s.skip(1), ScanMode::Normal)
                } else {
                    seq![' '] + scan(s.skip(1), ScanMode::LineComment)
                }
            },
            ScanMode::BlockComment => {
                if s[0] == '*' && s.len() >= 2 && s[1] == '/' {
                    seq![' '] + scan(s.skip(2), ScanMode::Normal)
                } else {
                    scan(s.skip(1), ScanMode::BlockComment)
                }
            },
        }
    }
}

/// The normalized form of a whole input.
pub open spec fn normalize_spec(s: Seq<char>) -> Seq<char> {
    scan(s, ScanMode::Normal)
}

proof fn lemma_skip_skip<T>(s: Seq<T>, i: int, j: int)
    requires
        0 <= i,
        0 <= j,
        i + j <= s.len(),
    ensures
        s.skip(i).skip(j) == s.skip(i + j),
{
    assert(s.skip(i).skip(j) =~= s.skip(i + j));
}

proof fn lemma_add_assoc<T>(a: Seq<T>, b: Seq<T>, c: Seq<T>)
    ensures
        (a + b) + c == a + (b + c),
{
    assert((a + b) + c =~= a + (b + c));
}

/// Every character the normalizer emits is either a replacement blank, a
/// newline, or a character passed through outside any literal or comment; a
/// quote character is never emitted.
proof fn lemma_scan_no_quotes(s: Seq<char>, m: ScanMode, i: int)
    requires
        0 <= i < scan(s, m).len(),
    ensures
        scan(s, m)[i] != '\'',
        scan(s, m)[i] != '"',
    decreases s.len(),
{
    if s.len() == 0 {
    } else {
        match m {
            ScanMode::Normal => {
                if s[0] == '\'' || s[0] == '"' {
                    if i >= 1 {
                        lemma_scan_no_quotes(s.skip(1), if s[0] == '\'' {
                            ScanMode::SingleQuote
                        } else {
                            ScanMode::DoubleQuote
                        }, i - 1);
                    }
                } else if s[0] == '-' && s.len() >= 2 && s[1] == '-' {
                    if i >= 2 {
                        lemma_scan_no_quotes(s.skip(2), ScanMode::LineComment, i - 2);
                    }
                } else if s[0] == '/' && s.len() >= 2 && s[1] == '*' {
                    lemma_scan_no_quotes(s.skip(2), ScanMode::BlockComment, i);
                } else {
                    if i >= 1 {
                        lemma_scan_no_quotes(s.skip(1), ScanMode::Normal, i - 1);
                    }
                }
            },
            ScanMode::SingleQuote => {
                if i >= 1 {
                    lemma_scan_no_quotes(s.skip(1), if s[0] == '\'' {
                        ScanMode::Normal
                    } else {
                        ScanMode::SingleQuote
                    }, i - 1);
                }
            },
            ScanMode::DoubleQuote => {
                if i >= 1 {
                    lemma_scan_no_quotes(s.skip(1), if s[0] == '"' {
                        ScanMode::Normal
                    } else {
                        ScanMode::DoubleQuote
                    }, i - 1);
                }
            },
            ScanMode::LineComment => {
                if i >= 1 {
                    lemma_scan_no_quotes(s.skip(1), if s[0] == '\n' {
                        ScanMode::Normal
                    } else {
                        ScanMode::LineComment
                    }, i - 1);
                }
            },
            ScanMode::BlockComment => {
                if s[0] == '*' && s.len() >= 2 && s[1] == '/' {
                    if i >= 1 {
                        lemma_scan_no_quotes(s.skip(2), ScanMode::Normal, i - 1);
                    }
                } else {
                    lemma_scan_no_quotes(s.skip(1), ScanMode::BlockComment, i);
                }
            },
        }
    }
}

/// When the first emitted character is `-`, `*` or `/`, it was passed
/// through: the scanner stood outside any literal or comment and the input
/// starts with that character.
proof fn lemma_scan_first_special(s: Seq<char>, m: ScanMode)
    requires
        scan(s, m).len() > 0,
    ensures
        scan(s, m)[0] == '-' || scan(s, m)[0] == '*' || scan(s, m)[0] == '/' ==> m
            == ScanMode::Normal && s.len() > 0 && s[0] == scan(s, m)[0],
    decreases s.len(),
{
    if s.len() == 0 {
    } else {
        match m {
            ScanMode::Normal => {
                if s[0] == '/' && s.len() >= 2 && s[1] == '*' {
                    lemma_scan_first_special(s.skip(2), ScanMode::BlockComment);
                }
            },
            ScanMode::BlockComment => {
                if !(s[0] == '*' && s.len() >= 2 && s[1] == '/') {
                    if scan(s.skip(1), ScanMode::BlockComment).len() > 0 {
                        lemma_scan_first_special(s.skip(1), ScanMode::BlockComment);
                    }
                }
            },
            _ => {},
        }
    }
}

/// The normalizer never emits `--` or `/*` as adjacent characters.
proof fn lemma_scan_no_digram(s: Seq<char>, m: ScanMode, i: int)
    requires
        0 <= i,
        i + 1 < scan(s, m).len(),
    ensures
        !(scan(s, m)[i] == '-' && scan(s, m)[i + 1] == '-'),
        !(scan(s, m)[i] == '/' && scan(s, m)[i + 1] == '*'),
    decreases s.len(),
{
    if s.len() == 0 {
    } else {
        match m {
            ScanMode::Normal => {
                if s[0] == '\'' || s[0] == '"' {
                    let m2 = if s[0] == '\'' {
                        ScanMode::SingleQuote
                    } else {
                        ScanMode::DoubleQuote
                    };
                    if i == 0 {
                        // the chunk character is a blank
                    } else {
                        lemma_scan_no_digram(s.skip(1), m2, i - 1);
                    }
                } else if s[0] == '-' && s.len() >= 2 && s[1] == '-' {
                    if i >= 2 {
                        lemma_scan_no_digram(s.skip(2), ScanMode::LineComment, i - 2);
                    } else if i == 1 {
                        lemma_scan_first_special(s.skip(2), ScanMode::LineComment);
                    }
                } else if s[0] == '/' && s.len() >= 2 && s[1] == '*' {
                    lemma_scan_no_digram(s.skip(2), ScanMode::BlockComment, i);
                } else {
                    if i == 0 {
                        lemma_scan_first_special(s.skip(1), ScanMode::Normal);
                    } else {
                        lemma_scan_no_digram(s.skip(1), ScanMode::Normal, i - 1);
                    }
                }
            },
            ScanMode::SingleQuote => {
                let m2 = if s[0] == '\'' {
                    ScanMode::Normal
                } else {
                    ScanMode::SingleQuote
                };
                if i >= 1 {
                    lemma_scan_no_digram(s.skip(1), m2, i - 1);
                } else {
                    lemma_scan_first_special(s.skip(1), m2);
                }
            },
            ScanMode::DoubleQuote => {
                let m2 = if s[0] == '"' {
                    ScanMode::Normal
                } else {
                    ScanMode::DoubleQuote
                };
                if i >= 1 {
                    lemma_scan_no_digram(s.skip(1), m2, i - 1);
                } else {
                    lemma_scan_first_special(s.skip(1), m2);
                }
            },
            ScanMode::LineComment => {
                let m2 = if s[0] == '\n' {
                    ScanMode::Normal
                } else {
                    ScanMode::LineComment
                };
                if i >= 1 {
                    lemma_scan_no_digram(s.skip(1), m2, i - 1);
                } else {
                    lemma_scan_first_special(s.skip(1), m2);
                }
            },
            ScanMode::BlockComment => {
                if s[0] == '*' && s.len() >= 2 && s[1] == '/' {
                    if i >= 1 {
                        lemma_scan_no_digram(s.skip(2), ScanMode::Normal, i - 1);
                    } else {
                        lemma_scan_first_special(s.skip(2), ScanMode::Normal);
                    }
                } else {
                    lemma_scan_no_digram(s.skip(1), ScanMode::BlockComment, i);
                }
            },
        }
    }
}

/// On text free of quote characters and of the digrams `--` and `/*`, the
/// normalizer passes every character through unchanged.
proof fn lemma_scan_inert(t: Seq<char>)
    requires
        forall|j: int| 0 <= j < t.len() ==> t[j] != '\'' && t[j] != '"',
        forall|j: int|
            0 <= j && j + 1 < t.len() ==> !((#[trigger] t[j]) == '-' && t[j + 1] == '-') && !(t[j]
                == '/' && t[j + 1] == '*'),
    ensures
        scan(t, ScanMode::Normal) == t,
    decreases t.len(),
{
    if t.len() == 0 {
        assert(scan(t, ScanMode::Normal) =~= t);
    } else {
        assert(t[0] != '\'' && t[0] != '"');
        if t.len() >= 2 {
            assert(!(t[0] == '-' && t[1] == '-') && !(t[0] == '/' && t[1] == '*'));
        }
        assert(forall|j: int| 0 <= j < t.skip(1).len() ==> t.skip(1)[j] == t[j + 1]);
        lemma_scan_inert(t.skip(1));
        assert(scan(t, ScanMode::Normal) =~= t);
    }
}

/// The scanner's output with, beside each emitted character, the input
/// position it was copied from, or -1 for a replacement character.  `pos` is
/// the absolute position of `s[0]` in the whole input.
pub open spec fn scan_tagged(s: Seq<char>, pos: int, m: ScanMode) -> Seq<(char, int)>
    decreases s.len(),
{
    if s.len() == 0 {
        Seq::empty()
    } else {
        match m {
            ScanMode::Normal => {
                if s[0] == '\'' {
                    seq![(' ', -1int)] + scan_tagged(s.skip(1), pos + 1, ScanMode::SingleQuote)
                } else if s[0] == '"' {
                    seq![(' ', -1int)] + scan_tagged(s.skip(1), pos + 1, ScanMode::DoubleQuote)
                } else if s[0] == '-' && s.len() >= 2 && s[1] == '-' {
                    seq![(' ', -1int), (' ', -1int)] + scan_tagged(
                        s.skip(2),
                        pos + 2,
                        ScanMode::LineComment,
                    )
                } else if s[0] == '/' && s.len() >= 2 && s[1] == '*' {
                    scan_tagged(s.skip(2), pos + 2, ScanMode::BlockComment)
                } else {
                    seq![(s[0], pos)] + scan_tagged(s.skip(1), pos + 1, ScanMode::Normal)
                }
            },
            ScanMode::SingleQuote => {
                if s[0] == '\'' {
                    seq![(' ', -1int)] + scan_tagged(s.skip(1), pos + 1, ScanMode::Normal)
                } else {
                    seq![(' ', -1int)] + scan_tagged(s.skip(1), pos + 1, ScanMode::SingleQuote)
                }
            },
            ScanMode::DoubleQuote => {
                if s[0] == '"' {
                    seq![(' ', -1int)] + scan_tagged(s.skip(1), pos + 1, ScanMode::Normal)
                } else {
                    seq![(' ', -1int)] + scan_tagged(s.skip(1), pos + 1, ScanMode::DoubleQuote)
                }
            },
            ScanMode::LineComment => {
                if s[0] == '\n' {
                    seq![('\n', -1int)] + scan_tagged(s.skip(1), pos + 1, ScanMode::Normal)
                } else {
                    seq![(' ', -1int)] + scan_tagged(s.skip(1), pos + 1, ScanMode::LineComment)
                }
            },
            ScanMode::BlockComment => {
                if s[0] == '*' && s.len() >= 2 && s[1] == '/' {
                    seq![(' ', -1int)] + scan_tagged(s.skip(2), pos + 2, ScanMode::Normal)
                } else {
                    scan_tagged(s.skip(1), pos + 1, ScanMode::BlockComment)
                }
            },
        }
    }
}

/// The tagged scan emits the same characters as the plain scan.
proof fn lemma_scan_tagged_corresponds(s: Seq<char>, pos: int, m: ScanMode)
    ensures
        scan_tagged(s, pos, m).len() == scan(s, m).len(),
        forall|i: int|
            0 <= i < scan(s, m).len() ==> (#[trigger] scan_tagged(s, pos, m)[i]).0 == scan(s, m)[i],
    decreases s.len(),
{
    if s.len() == 0 {
    } else {
        match m {
            ScanMode::Normal => {
                if s[0] == '\'' {
                    lemma_scan_tagged_corresponds(s.skip(1), pos + 1, ScanMode::SingleQuote);
                } else if s[0] == '"' {
                    lemma_scan_tagged_corresponds(s.skip(1), pos + 1, ScanMode::DoubleQuote);
                } else if s[0] == '-' && s.len() >= 2 && s[1] == '-' {
                    lemma_scan_tagged_corresponds(s.skip(2), pos + 2, ScanMode::LineComment);
                } else if s[0] == '/' && s.len() >= 2 && s[1] == '*' {
                    lemma_scan_tagged_corresponds(s.skip(2), pos + 2, ScanMode::BlockComment);
                } else {
                    lemma_scan_tagged_corresponds(s.skip(1), pos + 1, ScanMode::Normal);
                }
            },
            ScanMode::SingleQuote => {
                let m2 = if s[0] == '\'' {
                    ScanMode::Normal
                } else {
                    ScanMode::SingleQuote
                };
                lemma_scan_tagged_corresponds(s.skip(1), pos + 1, m2);
            },
            ScanMode::DoubleQuote => {
                let m2 = if s[0] == '"' {
                    ScanMode::Normal
                } else {
                    ScanMode::DoubleQuote
                };
                lemma_scan_tagged_corresponds(s.skip(1), pos + 1, m2);
            },
            ScanMode::LineComment => {
                let m2 = if s[0] == '\n' {
                    ScanMode::Normal
                } else {
                    ScanMode::LineComment
                };
                lemma_scan_tagged_corresponds(s.skip(1), pos + 1, m2);
            },
            ScanMode::BlockComment => {
                if s[0] == '*' && s.len() >= 2 && s[1] == '/' {
                    lemma_scan_tagged_corresponds(s.skip(2), pos + 2, ScanMode::Normal);
                } else {
                    lemma_scan_tagged_corresponds(s.skip(1), pos + 1, ScanMode::BlockComment);
                }
            },
        }
    }
}

/// Each tagged element is either a replacement blank or newline (tag -1), or
/// a copy of the source character at its tag.
proof fn lemma_scan_tagged_sources(s: Seq<char>, pos: int, m: ScanMode, i: int)
    requires
        pos >= 0,
        0 <= i < scan_tagged(s, pos, m).len(),
    ensures
        scan_tagged(s, pos, m)[i].1 == -1 ==> scan_tagged(s, pos, m)[i].0 == ' ' || scan_tagged(
            s,
            pos,
            m,
        )[i].0 == '\n',
        scan_tagged(s, pos, m)[i].1 != -1 ==> pos <= scan_tagged(s, pos, m)[i].1 < pos + s.len()
            && scan_tagged(s, pos, m)[i].0 == s[scan_tagged(s, pos, m)[i].1 - pos],
    decreases s.len(),
{
    if s.len() == 0 {
    } else {
        match m {
            ScanMode::Normal => {
                if s[0] == '\'' {
                    if i >= 1 {
                        lemma_scan_tagged_sources(s.skip(1), pos + 1, ScanMode::SingleQuote, i - 1);
                    }
                } else if s[0] == '"' {
                    if i >= 1 {
                        lemma_scan_tagged_sources(s.skip(1), pos + 1, ScanMode::DoubleQuote, i - 1);
                    }
                } else if s[0] == '-' && s.len() >= 2 && s[1] == '-' {
                    if i >= 2 {
                        lemma_scan_tagged_sources(s.skip(2), pos + 2, ScanMode::LineComment, i - 2);
                    }
                } else if s[0] == '/' && s.len() >= 2 && s[1] == '*' {
                    lemma_scan_tagged_sources(s.skip(2), pos + 2, ScanMode::BlockComment, i);
                } else {
                    if i >= 1 {
                        lemma_scan_tagged_sources(s.skip(1), pos + 1, ScanMode::Normal, i - 1);
                    }
                }
            },
            ScanMode::SingleQuote => {
                let m2 = if s[0] == '\'' {
                    ScanMode::Normal
                } else {
                    ScanMode::SingleQuote
                };
                if i >= 1 {
                    lemma_scan_tagged_sources(s.skip(1), pos + 1, m2, i - 1);
                }
            },
            ScanMode::DoubleQuote => {
                let m2 = if s[0] == '"' {
                    ScanMode::Normal
                } else {
                    ScanMode::DoubleQuote
                };
                if i >= 1 {
                    lemma_scan_tagged_sources(s.skip(1), pos + 1, m2, i - 1);
                }
            },
            ScanMode::LineComment => {
                let m2 = if s[0] == '\n' {
                    ScanMode::Normal
                } else {
                    ScanMode::LineComment
                };
                if i >= 1 {
                    lemma_scan_tagged_sources(s.skip(1), pos + 1, m2, i - 1);
                }
            },
            ScanMode::BlockComment => {
                if s[0] == '*' && s.len() >= 2 && s[1] == '/' {
                    if i >= 1 {
                        lemma_scan_tagged_sources(s.skip(2), pos + 2, ScanMode::Normal, i - 1);
                    }
                } else {
                    lemma_scan_tagged_sources(s.skip(1), pos + 1, ScanMode::BlockComment, i);
                }
            },
        }
    }
}

/// When the first tagged element is a copy, the scanner stood outside any
/// literal or comment and the copy is of the first input character.
proof fn lemma_scan_tagged_first(s: Seq<char>, pos: int, m: ScanMode)
    requires
        pos >= 0,
        scan_tagged(s, pos, m).len() > 0,
    ensures
        scan_tagged(s, pos, m)[0].1 != -1 ==> m == ScanMode::Normal && scan_tagged(s, pos, m)[0].1
            == pos,
    decreases s.len(),
{
    if s.len() == 0 {
    } else {
        match m {
            ScanMode::Normal => {
                if s[0] == '/' && s.len() >= 2 && s[1] == '*' {
                    lemma_scan_tagged_first(s.skip(2), pos + 2, ScanMode::BlockComment);
                }
            },
            ScanMode::BlockComment => {
                if !(s[0] == '*' && s.len() >= 2 && s[1] == '/') {
                    if scan_tagged(s.skip(1), pos + 1, ScanMode::BlockComment).len() > 0 {
                        lemma_scan_tagged_first(s.skip(1), pos + 1, ScanMode::BlockComment);
                    }
                }
            },
            _ => {},
        }
    }
}

/// Adjacent copied characters in the output come from adjacent input
/// positions.
proof fn lemma_scan_tagged_adjacent(s: Seq<char>, pos: int, m: ScanMode, i: int)
    requires
        pos >= 0,
        0 <= i,
        i + 1 < scan_tagged(s, pos, m).len(),
        scan_tagged(s, pos, m)[i].1 != -1,
        scan_tagged(s, pos, m)[i + 1].1 != -1,
    ensures
        scan_tagged(s, pos, m)[i + 1].1 == scan_tagged(s, pos, m)[i].1 + 1,
    decreases s.len(),
{
    if s.len() == 0 {
    } else {
        match m {
            ScanMode::Normal => {
                if s[0] == '\'' {
                    if i >= 1 {
                        lemma_scan_tagged_adjacent(
                            s.skip(1),
                            pos + 1,
                            ScanMode::SingleQuote,
                            i - 1,
                        );
                    }
                } else if s[0] == '"' {
                    if i >= 1 {
                        lemma_scan_tagged_adjacent(
                            s.skip(1),
                            pos + 1,
                            ScanMode::DoubleQuote,
                            i - 1,
                        );
                    }
                } else if s[0] == '-' && s.len() >= 2 && s[1] == '-' {
                    if i >= 2 {
                        lemma_scan_tagged_adjacent(
                            s.skip(2),
                            pos + 2,
                            ScanMode::LineComment,
                            i - 2,
                        );
                    }
                } else if s[0] == '/' && s.len() >= 2 && s[1] == '*' {
                    lemma_scan_tagged_adjacent(s.skip(2), pos + 2, ScanMode::BlockComment, i);
                } else {
                    if i == 0 {
                        lemma_scan_tagged_first(s.skip(1), pos + 1, ScanMode::Normal);
                    } else {
                        lemma_scan_tagged_adjacent(s.skip(1), pos + 1, ScanMode::Normal, i - 1);
                    }
                }
            },
            ScanMode::SingleQuote => {
                let m2 = if s[0] == '\'' {
                    ScanMode::Normal
                } else {
                    ScanMode::SingleQuote
                };
                if i >= 1 {
                    lemma_scan_tagged_adjacent(s.skip(1), pos + 1, m2, i - 1);
                }
            },
            ScanMode::DoubleQuote => {
                let m2 = if s[0] == '"' {
                    ScanMode::Normal
                } else {
                    ScanMode::DoubleQuote
                };
                if i >= 1 {
                    lemma_scan_tagged_adjacent(s.skip(1), pos + 1, m2, i - 1);
                }
            },
            ScanMode::LineComment => {
                let m2 = if s[0] == '\n' {
                    ScanMode::Normal
                } else {
                    ScanMode::LineComment
                };
                if i >= 1 {
                    lemma_scan_tagged_adjacent(s.skip(1), pos + 1, m2, i - 1);
                }
            },
            ScanMode::BlockComment => {
                if s[0] == '*' && s.len() >= 2 && s[1] == '/' {
                    if i >= 1 {
                        lemma_scan_tagged_adjacent(s.skip(2), pos + 2, ScanMode::Normal, i - 1);
                    }
                } else {
                    lemma_scan_tagged_adjacent(s.skip(1), pos + 1, ScanMode::BlockComment, i);
                }
            },
        }
    }
}

/// In a run of copied output characters, the tags advance one by one.
proof fn lemma_tag_run(s: Seq<char>, i: int, k: int)
    requires
        0 <= i,
        1 <= k,
        i + k <= scan_tagged(s, 0, ScanMode::Normal).len(),
        forall|j: int|
            0 <= j < k ==> (#[trigger] scan_tagged(s, 0, ScanMode::Normal)[i + j]).1 != -1,
    ensures
        forall|j: int|
            0 <= j < k ==> (#[trigger] scan_tagged(s, 0, ScanMode::Normal)[i + j]).1 == scan_tagged(
                s,
                0,
                ScanMode::Normal,
            )[i].1 + j,
    decreases k,
{
    let sc = scan_tagged(s, 0, ScanMode::Normal);
    if k > 1 {
        lemma_tag_run(s, i, k - 1);
        assert(sc[i + (k - 2)].1 != -1);
        assert(sc[i + (k - 1)].1 != -1);
        lemma_scan_tagged_adjacent(s, 0, ScanMode::Normal, i + k - 2);
        assert(sc[i + (k - 2)].1 == sc[i].1 + (k - 2));
        assert(sc[i + (k - 1)].1 == sc[i + (k - 2) + 1].1);
        assert forall|j: int| 0 <= j < k implies (#[trigger] sc[i + j]).1 == sc[i].1 + j by {
            if j < k - 1 {
                assert(sc[i + j].1 == sc[i].1 + j);
            } else {
                assert(j == k - 1);
            }
        }
    } else {
        assert(sc[i + 0].1 == sc[i].1 + 0);
    }
}

/// Without block comments, the scan preserves positions: it emits exactly
/// one character per input character, and a copied character keeps its
/// place.
proof fn lemma_scan_tagged_positional(s: Seq<char>, pos: int, m: ScanMode)
    requires
        m != ScanMode::BlockComment,
        forall|p: int| 0 <= p && p + 1 < s.len() ==> !((#[trigger] s[p]) == '/' && s[p + 1] == '*'),
    ensures
        scan_tagged(s, pos, m).len() == s.len(),
        forall|x: int|
            0 <= x < s.len() ==> (#[trigger] scan_tagged(s, pos, m)[x]).1 == -1 || scan_tagged(
                s,
                pos,
                m,
            )[x].1 == pos + x,
    decreases s.len(),
{
    if s.len() == 0 {
    } else {
        assert(forall|p: int|
            0 <= p && p + 1 < s.skip(1).len() ==> !((#[trigger] s.skip(1)[p]) == '/' && s.skip(
                1,
            )[p + 1] == '*'));
        if s.len() >= 2 {
            assert(forall|p: int|
                0 <= p && p + 1 < s.skip(2).len() ==> !((#[trigger] s.skip(2)[p]) == '/' && s.skip(
                    2,
                )[p + 1] == '*'));
        }
        match m {
            ScanMode::Normal => {
                if s[0] == '\'' {
                    lemma_scan_tagged_positional(s.skip(1), pos + 1, ScanMode::SingleQuote);
                } else if s[0] == '"' {
                    lemma_scan_tagged_positional(s.skip(1), pos + 1, ScanMode::DoubleQuote);
                } else if s[0] == '-' && s.len() >= 2 && s[1] == '-' {
                    lemma_scan_tagged_positional(s.skip(2), pos + 2, ScanMode::LineComment);
                } else if s[0] == '/' && s.len() >= 2 && s[1] == '*' {
                    assert(!(s[0] == '/' && s[1] == '*'));
                } else {
                    lemma_scan_tagged_positional(s.skip(1), pos + 1, ScanMode::Normal);
                }
            },
            ScanMode::SingleQuote => {
                let m2 = if s[0] == '\'' {
                    ScanMode::Normal
                } else {
                    ScanMode::SingleQuote
                };
                lemma_scan_tagged_positional(s.skip(1), pos + 1, m2);
            },
            ScanMode::DoubleQuote => {
                let m2 = if s[0] == '"' {
                    ScanMode::Normal
                } else {
                    ScanMode::DoubleQuote
                };
                lemma_scan_tagged_positional(s.skip(1), pos + 1, m2);
            },
            ScanMode::LineComment => {
                let m2 = if s[0] == '\n' {
                    ScanMode::Normal
                } else {
                    ScanMode::LineComment
                };
                lemma_scan_tagged_positional(s.skip(1), pos + 1, m2);
            },
            ScanMode::BlockComment => {},
        }
    }
}

/// Inside a literal or a line comment, the first emitted element is a
/// replacement.
proof fn lemma_scan_tagged_first_untagged(s: Seq<char>, pos: int, m: ScanMode)
    requires
        m == ScanMode::SingleQuote || m == ScanMode::DoubleQuote || m == ScanMode::LineComment,
        scan_tagged(s, pos, m).len() > 0,
    ensures
        scan_tagged(s, pos, m)[0].1 == -1,
{
}

/// Outside literals and comments (and without block comments), a replacement
/// at the front is followed by another replacement: a quote masks at least
/// the next character too, and a line comment starts with two dashes.
proof fn lemma_scan_tagged_repl_pair(s: Seq<char>, pos: int)
    requires
        pos >= 0,
        forall|p: int| 0 <= p && p + 1 < s.len() ==> !((#[trigger] s[p]) == '/' && s[p + 1] == '*'),
        scan_tagged(s, pos, ScanMode::Normal).len() >= 2,
        scan_tagged(s, pos, ScanMode::Normal)[0].1 == -1,
    ensures
        scan_tagged(s, pos, ScanMode::Normal)[1].1 == -1,
{
    if s[0] == '\'' {
        lemma_scan_tagged_first_untagged(s.skip(1), pos + 1, ScanMode::SingleQuote);
    } else if s[0] == '"' {
        lemma_scan_tagged_first_untagged(s.skip(1), pos + 1, ScanMode::DoubleQuote);
    } else if s[0] == '-' && s.len() >= 2 && s[1] == '-' {
    } else if s[0] == '/' && s.len() >= 2 && s[1] == '*' {
        assert(!(s[0] == '/' && s[1] == '*'));
    } else {
    }
}

/// Without block comments, a replacement never stands alone between two
/// copied characters: whatever masked it (a quoted literal or a line
/// comment) masks one of its neighbours as well.
proof fn lemma_scan_tagged_isolated_replacement(s: Seq<char>, pos: int, m: ScanMode, x: int)
    requires
        pos >= 0,
        m != ScanMode::BlockComment,
        forall|p: int| 0 <= p && p + 1 < s.len() ==> !((#[trigger] s[p]) == '/' && s[p + 1] == '*'),
        1 <= x,
        x + 1 < scan_tagged(s, pos, m).len(),
        scan_tagged(s, pos, m)[x].1 == -1,
    ensures
        scan_tagged(s, pos, m)[x - 1].1 == -1 || scan_tagged(s, pos, m)[x + 1].1 == -1,
    decreases s.len(),
{
    if s.len() == 0 {
    } else {
        assert(forall|p: int|
            0 <= p && p + 1 < s.skip(1).len() ==> !((#[trigger] s.skip(1)[p]) == '/' && s.skip(
                1,
            )[p + 1] == '*'));
        if s.len() >= 2 {
            assert(forall|p: int|
                0 <= p && p + 1 < s.skip(2).len() ==> !((#[trigger] s.skip(2)[p]) == '/' && s.skip(
                    2,
                )[p + 1] == '*'));
        }
        match m {
            ScanMode::Normal => {
                if s[0] == '\'' || s[0] == '"' {
                    let m2 = if s[0] == '\'' {
                        ScanMode::SingleQuote
                    } else {
                        ScanMode::DoubleQuote
                    };
                    if x >= 2 {
                        lemma_scan_tagged_isolated_replacement(s.skip(1), pos + 1, m2, x - 1);
                    }
                } else if s[0] == '-' && s.len() >= 2 && s[1] == '-' {
                    if x >= 3 {
                        lemma_scan_tagged_isolated_replacement(
                            s.skip(2),
                            pos + 2,
                            ScanMode::LineComment,
                            x - 2,
                        );
                    }
                } else if s[0] == '/' && s.len() >= 2 && s[1] == '*' {
                    assert(!(s[0] == '/' && s[1] == '*'));
                } else {
                    if x == 1 {
                        lemma_scan_tagged_repl_pair(s.skip(1), pos + 1);
                    } else {
                        lemma_scan_tagged_isolated_replacement(
                            s.skip(1),
                            pos + 1,
                            ScanMode::Normal,
                            x - 1,
                        );
                    }
                }
            },
            ScanMode::SingleQuote => {
                let m2 = if s[0] == '\'' {
                    ScanMode::Normal
                } else {
                    ScanMode::SingleQuote
                };
                if x >= 2 {
                    lemma_scan_tagged_isolated_replacement(s.skip(1), pos + 1, m2, x - 1);
                }
            },
            ScanMode::DoubleQuote => {
                let m2 = if s[0] == '"' {
                    ScanMode::Normal
                } else {
                    ScanMode::DoubleQuote
                };
                if x >= 2 {
                    lemma_scan_tagged_isolated_replacement(s.skip(1), pos + 1, m2, x - 1);
                }
            },
            ScanMode::LineComment => {
                let m2 = if s[0] == '\n' {
                    ScanMode::Normal
                } else {
                    ScanMode::LineComment
                };
                if x >= 2 {
                    lemma_scan_tagged_isolated_replacement(s.skip(1), pos + 1, m2, x - 1);
                }
            },
            ScanMode::BlockComment => {},
        }
    }
}

/// Position `p` of the input is passed through by the normalizer: it stands
/// outside every string literal and comment.  A masked position — one inside
/// a literal or a comment — is never copied to the output.
pub open spec fn emitted_verbatim(s: Seq<char>, p: int) -> bool {
    exists|i: int|
        0 <= i < scan_tagged(s, 0, ScanMode::Normal).len() && (#[trigger] scan_tagged(
            s,
            0,
            ScanMode::Normal,
        )[i]).1 == p
}

/// A keyword visible in the normalized text stands verbatim in the input, at
/// a position every character of which is outside string literals and
/// comments.  Contrapositively: a keyword whose every occurrence in the
/// input is somewhere masked cannot be detected in the normalized text.
/// This holds for keywords free of blanks and newlines; a keyword with an
/// inner blank can be fabricated by a collapsing block comment.
pub proof fn lemma_visible_keyword_stands_clear(s: Seq<char>, kw: Seq<char>, i: int)
    requires
        kw.len() > 0,
        forall|j: int| 0 <= j < kw.len() ==> kw[j] != ' ' && kw[j] != '\n',
        0 <= i,
        i + kw.len() <= normalize_spec(s).len(),
        normalize_spec(s).subrange(i, i + kw.len() as int) == kw,
    ensures
        exists|p: int|
            0 <= p && p + kw.len() <= s.len() && (#[trigger] s.subrange(p, p + kw.len() as int))
                == kw && (forall|q: int| p <= q < p + kw.len() ==> emitted_verbatim(s, q)),
{
    let sc = scan_tagged(s, 0, ScanMode::Normal);
    let t = normalize_spec(s);
    let klen = kw.len() as int;
    lemma_scan_tagged_corresponds(s, 0, ScanMode::Normal);
    assert forall|j: int| 0 <= j < klen implies (#[trigger] sc[i + j]).1 != -1 by {
        assert(kw[j] != ' ' && kw[j] != '\n');
        assert(t[i + j] == t.subrange(i, i + klen)[j]);
        assert(sc[i + j].0 == t[i + j]);
        lemma_scan_tagged_sources(s, 0, ScanMode::Normal, i + j);
    }
    lemma_tag_run(s, i, klen);
    let p = sc[i].1;
    assert forall|j: int|
        0 <= j < klen implies 0 <= p + j < s.len() && (#[trigger] s[p + j]) == kw[j] by {
        lemma_scan_tagged_sources(s, 0, ScanMode::Normal, i + j);
        assert(sc[i + j].1 == p + j);
        assert(t[i + j] == t.subrange(i, i + klen)[j]);
    }
    assert(0 <= p && p + klen <= s.len()) by {
        assert(s[p + 0] == kw[0]);
        assert(s[p + (klen - 1)] == kw[klen - 1]);
    }
    assert forall|j: int| 0 <= j < klen implies s.subrange(p, p + klen)[j] == kw[j] by {
        assert(s[p + j] == kw[j]);
    }
    assert(s.subrange(p, p + klen) =~= kw);
    assert forall|q: int| p <= q < p + klen implies emitted_verbatim(s, q) by {
        assert(sc[i + (q - p)].1 == q);
    }
}

/// No keyword that stands nowhere clear in the input is detectable in the
/// normalized text: when every occurrence of the keyword in the input has at
/// least one masked character, the normalized text holds no occurrence at
/// all.  The keyword must be free of blanks and newlines.
pub proof fn lemma_masked_keyword_invisible(s: Seq<char>, kw: Seq<char>)
    requires
        kw.len() > 0,
        forall|j: int| 0 <= j < kw.len() ==> kw[j] != ' ' && kw[j] != '\n',
        forall|p: int|
            0 <= p && p + kw.len() <= s.len() && (#[trigger] s.subrange(p, p + kw.len() as int))
                == kw ==> exists|q: int| p <= q < p + kw.len() && !emitted_verbatim(s, q),
    ensures
        forall|i: int|
            0 <= i && i + kw.len() <= normalize_spec(s).len() ==> (#[trigger] normalize_spec(
                s,
            ).subrange(i, i + kw.len() as int)) != kw,
{
    assert forall|i: int|
        0 <= i && i + kw.len() <= normalize_spec(s).len() implies (#[trigger] normalize_spec(
        s,
    ).subrange(i, i + kw.len() as int)) != kw by {
        if normalize_spec(s).subrange(i, i + kw.len() as int) == kw {
            lemma_visible_keyword_stands_clear(s, kw, i);
        }
    }
}

/// On input free of block comments, the guarantee extends to keywords with
/// inner blanks, such as multi-word SQL phrases: a phrase visible in the
/// normalized text stands verbatim, at the same position, with every
/// character outside literals and comments.  Inputs holding `/*` are left
/// out: a block comment collapses to one blank and can pull the words
/// around it together.
pub proof fn lemma_visible_phrase_stands_clear(s: Seq<char>, kw: Seq<char>, i: int)
    requires
        kw.len() > 0,
        forall|j: int| 0 <= j < kw.len() ==> (#[trigger] kw[j]) != '\n',
        forall|j: int|
            0 <= j < kw.len() && (#[trigger] kw[j]) == ' ' ==> 1 <= j < kw.len() - 1 && kw[j - 1]
                != ' ' && kw[j + 1] != ' ',
        forall|p: int| 0 <= p && p + 1 < s.len() ==> !((#[trigger] s[p]) == '/' && s[p + 1] == '*'),
        0 <= i,
        i + kw.len() <= normalize_spec(s).len(),
        normalize_spec(s).subrange(i, i + kw.len() as int) == kw,
    ensures
        i + kw.len() <= s.len(),
        s.subrange(i, i + kw.len() as int) == kw,
        forall|q: int| i <= q < i + kw.len() ==> emitted_verbatim(s, q),
{
    let sc = scan_tagged(s, 0, ScanMode::Normal);
    let t = normalize_spec(s);
    let klen = kw.len() as int;
    lemma_scan_tagged_corresponds(s, 0, ScanMode::Normal);
    lemma_scan_tagged_positional(s, 0, ScanMode::Normal);
    assert forall|j: int| 0 <= j < klen implies (#[trigger] sc[i + j]).1 == i + j by {
        assert(t[i + j] == t.subrange(i, i + klen)[j]);
        assert(sc[i + j].0 == t[i + j]);
        if kw[j] == ' ' {
            assert(kw[j - 1] != ' ' && kw[j - 1] != '\n');
            assert(kw[j + 1] != ' ' && kw[j + 1] != '\n');
            assert(t[i + j - 1] == t.subrange(i, i + klen)[j - 1]);
            assert(t[i + j + 1] == t.subrange(i, i + klen)[j + 1]);
            assert(sc[i + j - 1].0 == t[i + j - 1]);
            assert(sc[i + j + 1].0 == t[i + j + 1]);
            lemma_scan_tagged_sources(s, 0, ScanMode::Normal, i + j - 1);
            lemma_scan_tagged_sources(s, 0, ScanMode::Normal, i + j + 1);
            if sc[i + j].1 == -1 {
                lemma_scan_tagged_isolated_replacement(s, 0, ScanMode::Normal, i + j);
            }
        } else {
            lemma_scan_tagged_sources(s, 0, ScanMode::Normal, i + j);
        }
    }
    assert forall|j: int| 0 <= j < klen implies s.subrange(i, i + klen)[j] == kw[j] by {
        lemma_scan_tagged_sources(s, 0, ScanMode::Normal, i + j);
        assert(sc[i + j].0 == s[i + j]);
        assert(t[i + j] == t.subrange(i, i + klen)[j]);
    }
    assert(s.subrange(i, i + klen) =~= kw);
    assert forall|q: int| i <= q < i + klen implies emitted_verbatim(s, q) by {
        assert(sc[i + (q - i)].1 == q);
    }
}

/// The phrase form of the masking law: on input free of block comments,
/// when every verbatim occurrence of the phrase has at least one masked
/// character, the normalized text holds no occurrence at all.
pub proof fn lemma_masked_phrase_invisible(s: Seq<char>, kw: Seq<char>)
    requires
        kw.len() > 0,
        forall|j: int| 0 <= j < kw.len() ==> (#[trigger] kw[j]) != '\n',
        forall|j: int|
            0 <= j < kw.len() && (#[trigger] kw[j]) == ' ' ==> 1 <= j < kw.len() - 1 && kw[j - 1]
                != ' ' && kw[j + 1] != ' ',
        forall|p: int| 0 <= p && p + 1 < s.len() ==> !((#[trigger] s[p]) == '/' && s[p + 1] == '*'),
        forall|p: int|
            0 <= p && p + kw.len() <= s.len() && (#[trigger] s.subrange(p, p + kw.len() as int))
                == kw ==> exists|q: int| p <= q < p + kw.len() && !emitted_verbatim(s, q),
    ensures
        forall|i: int|
            0 <= i && i + kw.len() <= normalize_spec(s).len() ==> (#[trigger] normalize_spec(
                s,
            ).subrange(i, i + kw.len() as int)) != kw,
{
    assert forall|i: int|
        0 <= i && i + kw.len() <= normalize_spec(s).len() implies (#[trigger] normalize_spec(
        s,
    ).subrange(i, i + kw.len() as int)) != kw by {
        if normalize_spec(s).subrange(i, i + kw.len() as int) == kw {
            lemma_visible_phrase_stands_clear(s, kw, i);
        }
    }
}

/// Normalization is idempotent: normalizing an already-normalized text
/// changes nothing.
pub proof fn lemma_normalize_idempotent(s: Seq<char>)
    ensures
        normalize_spec(normalize_spec(s)) == normalize_spec(s),
{
    let t = normalize_spec(s);
    assert forall|j: int| 0 <= j < t.len() implies t[j] != '\'' && t[j] != '"' by {
        lemma_scan_no_quotes(s, ScanMode::Normal, j);
    }
    assert forall|j: int|
        0 <= j && j + 1 < t.len() implies !((#[trigger] t[j]) == '-' && t[j + 1] == '-') && !(t[j]
        == '/' && t[j + 1] == '*') by {
        lemma_scan_no_digram(s, ScanMode::Normal, j);
    }
    lemma_scan_inert(t);
}

/// The normalizer on a character vector.
pub fn normalize_chars(v: &Vec<char>) -> (r: Vec<char>)
    ensures
        r@ == normalize_spec(v@),
{
    let n = v.len();
    let mut out: Vec<char> = Vec::new();
    let mut m = ScanMode::Normal;
    let mut i: usize = 0;
    proof {
        assert(v@.skip(0) =~= v@);
        assert(out@ + scan(v@.skip(0), m) =~= scan(v@, m));
    }
    while i < n
        invariant
            n == v@.len(),
            i <= n,
            normalize_spec(v@) == out@ + scan(v@.skip(i as int), m),
        decreases n - i,
    {
        let ghost pre_out = out@;
        let ghost pre_m = m;
        let ghost pre_i = i as int;
        let ghost suf = v@.skip(i as int);
        let c = v[i];
        assert(suf[0] == c);
        match m {
            ScanMode::Normal => {
                if c == '\'' {
                    out.push(' ');
                    m = ScanMode::SingleQuote;
                    i = i + 1;
                } else if c == '"' {
                    out.push(' ');
                    m = ScanMode::DoubleQuote;
                    i = i + 1;
                } else if c == '-' && i + 1 < n && v[i + 1] == '-' {
                    out.push(' ');
                    out.push(' ');
                    m = ScanMode::LineComment;
                    i = i + 2;
                } else if c == '/' && i + 1 < n && v[i + 1] == '*' {
                    m = ScanMode::BlockComment;
                    i = i + 2;
                } else {
                    out.push(c);
                    i = i + 1;
                }
            },
            ScanMode::SingleQuote => {
                out.push(' ');
                if c == '\'' {
                    m = ScanMode::Normal;
                }
                i = i + 1;
            },
            ScanMode::DoubleQuote => {
                out.push(' ');
                if c == '"' {
                    m = ScanMode::Normal;
                }
                i = i + 1;
            },
            ScanMode::LineComment => {
                if c == '\n' {
                    out.push('\n');
                    m = ScanMode::Normal;
                } else {
                    out.push(' ');
                }
                i = i + 1;
            },
            ScanMode::BlockComment => {
                if c == '*' && i + 1 < n && v[i + 1] == '/' {
                    out.push(' ');
                    m = ScanMode::Normal;
                    i = i + 2;
                } else {
                    i = i + 1;
                }
            },
        }
        proof {
            let adv = i - pre_i;
            lemma_skip_skip(v@, pre_i, adv);
            if 1 < suf.len() {
                assert(suf[1] == v@[pre_i + 1]);
            }
            let chunk = out@.subrange(pre_out.len() as int, out@.len() as int);
            assert(out@ =~= pre_out + chunk);
            assert(scan(suf, pre_m) == chunk + scan(v@.skip(i as int), m));
            lemma_add_assoc(pre_out, chunk, scan(v@.skip(i as int), m));
        }
    }
    proof {
        assert(v@.skip(n as int) =~= Seq::<char>::empty());
        assert(scan(v@.skip(n as int), m) =~= Seq::<char>::empty());
        assert(out@ + scan(v@.skip(n as int), m) =~= out@);
    }
    out
}

} // verus!
