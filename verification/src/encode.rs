//! How values travel to the node: base64 for key material, single quotes for shell arguments.
use vstd::prelude::*;

use crate::text::{chars_of, joined};

verus! {

// ---------------------------------------------------------------------------------------------
// Base64.
/// The character that standard base64 writes for a number below 64.
pub open spec fn base64_char(n: int) -> char {
    if n < 26 {
        ('A' as int + n) as char
    } else if n < 52 {
        ('a' as int + n - 26) as char
    } else if n < 62 {
        ('0' as int + n - 52) as char
    } else if n == 62 {
        '+'
    } else {
        '/'
    }
}

/// The number that a character of the base64 alphabet stands for.
pub open spec fn base64_value(c: char) -> Option<int> {
    if 'A' <= c && c <= 'Z' {
        Some(c as int - 'A' as int)
    } else if 'a' <= c && c <= 'z' {
        Some(c as int - 'a' as int + 26)
    } else if '0' <= c && c <= '9' {
        Some(c as int - '0' as int + 52)
    } else if c == '+' {
        Some(62)
    } else if c == '/' {
        Some(63)
    } else {
        None
    }
}

/// The four characters for one, two or three bytes.
pub open spec fn base64_group(b: Seq<u8>) -> Seq<char> {
    let b1 = if b.len() > 1 {
        b[1] as int
    } else {
        0
    };
    let b2 = if b.len() > 2 {
        b[2] as int
    } else {
        0
    };
    let n = b[0] * 0x10000 + b1 * 0x100 + b2;
    seq![
        base64_char(n / 0x40000),
        base64_char(n / 0x1000 % 64),
        if b.len() > 1 {
            base64_char(n / 64 % 64)
        } else {
            '='
        },
        if b.len() > 2 {
            base64_char(n % 64)
        } else {
            '='
        },
    ]
}

/// Standard base64, without line breaks: the bytes in groups of three, the last of which may be
/// shorter.
pub open spec fn base64(b: Seq<u8>) -> Seq<char>
    decreases b.len(),
{
    if b.len() == 0 {
        Seq::empty()
    } else if b.len() <= 3 {
        base64_group(b)
    } else {
        base64_group(b.take(3)) + base64(b.skip(3))
    }
}

/// The bytes that a text in standard base64 stands for.
pub open spec fn base64_decoded(s: Seq<char>) -> Option<Seq<u8>>
    decreases s.len(),
{
    if s.len() == 0 {
        Some(Seq::empty())
    } else if s.len() < 4 {
        None
    } else {
        match (base64_value(s[0]), base64_value(s[1]), base64_value(s[2]), base64_value(s[3])) {
            (Some(c0), Some(c1), Some(c2), Some(c3)) => match base64_decoded(s.skip(4)) {
                Some(rest) => Some(
                    seq![
                        (c0 * 4 + c1 / 16) as u8,
                        (c1 % 16 * 16 + c2 / 4) as u8,
                        (c2 % 4 * 64 + c3) as u8,
                    ] + rest,
                ),
                None => None,
            },
            (Some(c0), Some(c1), Some(c2), None) => if s.len() == 4 && s[3] == '=' {
                Some(seq![(c0 * 4 + c1 / 16) as u8, (c1 % 16 * 16 + c2 / 4) as u8])
            } else {
                None
            },
            (Some(c0), Some(c1), None, None) => if s.len() == 4 && s[2] == '=' && s[3] == '=' {
                Some(seq![(c0 * 4 + c1 / 16) as u8])
            } else {
                None
            },
            _ => None,
        }
    }
}

proof fn lemma_base64_char(n: int)
    requires
        0 <= n < 64,
    ensures
        base64_value(base64_char(n)) == Some(n),
        base64_char(n) != '=',
{
}

proof fn lemma_base64_digits(b0: int, b1: int, b2: int)
    requires
        0 <= b0 < 256,
        0 <= b1 < 256,
        0 <= b2 < 256,
    ensures
        ({
            let n = b0 * 0x10000 + b1 * 0x100 + b2;
            &&& n / 0x40000 == b0 / 4
            &&& n / 0x1000 % 64 == b0 % 4 * 16 + b1 / 16
            &&& n / 64 % 64 == b1 % 16 * 4 + b2 / 64
            &&& n % 64 == b2 % 64
        }),
{
    let n = b0 * 0x10000 + b1 * 0x100 + b2;
    assert(n / 0x1000 == b0 * 16 + b1 / 16);
    assert(b0 * 16 == b0 / 4 * 64 + b0 % 4 * 16);
    assert(n / 64 == b0 * 1024 + b1 * 4 + b2 / 64);
    assert(b1 * 4 == b1 / 16 * 64 + b1 % 16 * 4);
}

proof fn lemma_base64_group(b: Seq<u8>)
    requires
        1 <= b.len() <= 3,
    ensures
        base64_group(b).len() == 4,
        base64_decoded(base64_group(b)) == Some(b),
        forall|i: int|
            0 <= i < 4 ==> if i <= b.len() {
                base64_value(#[trigger] base64_group(b)[i]) is Some
            } else {
                base64_group(b)[i] == '='
            },
{
    let b1 = if b.len() > 1 {
        b[1] as int
    } else {
        0
    };
    let b2 = if b.len() > 2 {
        b[2] as int
    } else {
        0
    };
    let n = b[0] * 0x10000 + b1 * 0x100 + b2;
    lemma_base64_digits(b[0] as int, b1, b2);
    lemma_base64_char(n / 0x40000);
    lemma_base64_char(n / 0x1000 % 64);
    lemma_base64_char(n / 64 % 64);
    lemma_base64_char(n % 64);
    let g = base64_group(b);
    assert(g.skip(4) =~= Seq::<char>::empty());
    assert(base64_decoded(g.skip(4)) == Some(Seq::<u8>::empty()));
    let c0 = b[0] / 4;
    let c1 = b[0] % 4 * 16 + b1 / 16;
    let c2 = b1 % 16 * 4 + b2 / 64;
    let c3 = b2 % 64;
    assert(c0 * 4 + c1 / 16 == b[0]);
    assert(c1 % 16 * 16 + c2 / 4 == b1);
    assert(c2 % 4 * 64 + c3 == b2);
    let d = base64_decoded(g)->0;
    if b.len() == 1 {
        assert(base64_value(g[2]) is None && base64_value(g[3]) is None);
        assert(d =~= b);
    } else if b.len() == 2 {
        assert(base64_value(g[2]) == Some(c2) && base64_value(g[3]) is None);
        assert(d =~= b);
    } else {
        assert(base64_value(g[2]) == Some(c2) && base64_value(g[3]) == Some(c3));
        assert(d =~= b);
    }
}

/// How many `=` stand at the end of a base64 text of so many bytes.
pub open spec fn padding(n: nat) -> int {
    if n % 3 == 0 {
        0
    } else {
        3 - n % 3
    }
}

/// A base64 text has four characters for each three bytes that are begun. All of them are of the
/// alphabet, but for the `=` at the end that make up for what is missing of the last three bytes.
pub proof fn base64_is_well_formed(b: Seq<u8>)
    ensures
        base64(b).len() == (b.len() + 2) / 3 * 4,
        forall|i: int|
            0 <= i < base64(b).len() ==> if i < base64(b).len() - padding(b.len()) {
                base64_value(#[trigger] base64(b)[i]) is Some
            } else {
                base64(b)[i] == '='
            },
    decreases b.len(),
{
    if b.len() == 0 {
    } else if b.len() <= 3 {
        lemma_base64_group(b);
    } else {
        let head = b.take(3);
        let tail = b.skip(3);
        lemma_base64_group(head);
        base64_is_well_formed(tail);
        assert(padding(b.len()) == padding(tail.len()));
        assert(base64(tail).len() >= 4);
        assert forall|i: int| 0 <= i < base64(b).len() implies if i < base64(b).len() - padding(
            b.len(),
        ) {
            base64_value(#[trigger] base64(b)[i]) is Some
        } else {
            base64(b)[i] == '='
        } by {
            if i < 4 {
                assert(base64(b)[i] == base64_group(head)[i]);
            } else {
                assert(base64(b)[i] == base64(tail)[i - 4]);
            }
        }
    }
}

/// Encoded bytes decode to themselves, so nothing of them is lost on the way.
pub proof fn base64_round_trips(b: Seq<u8>)
    ensures
        base64_decoded(base64(b)) == Some(b),
    decreases b.len(),
{
    if b.len() == 0 {
    } else if b.len() <= 3 {
        lemma_base64_group(b);
    } else {
        let head = b.take(3);
        let tail = b.skip(3);
        lemma_base64_group(head);
        base64_round_trips(tail);
        let g = base64_group(head);
        let s = base64(b);
        assert(s.skip(4) =~= base64(tail));
        assert(g.skip(4) =~= Seq::<char>::empty());
        assert(s[0] == g[0] && s[1] == g[1] && s[2] == g[2] && s[3] == g[3]);
        assert(base64_value(g[0]) is Some && base64_value(g[1]) is Some && base64_value(g[2])
            is Some && base64_value(g[3]) is Some);
        let d = base64_decoded(s)->0;
        let h = base64_decoded(g)->0;
        assert(base64_decoded(g.skip(4)) == Some(Seq::<u8>::empty()));
        assert(h.len() == 3 && h[0] == b[0] && h[1] == b[1] && h[2] == b[2]);
        assert(d =~= b);
    }
}

fn base64_char_of(n: u32) -> (r: char)
    requires
        n < 64,
    ensures
        r == base64_char(n as int),
{
    let b: u8 = n as u8;
    if b < 26 {
        (65 + b) as char
    } else if b < 52 {
        (97 + (b - 26)) as char
    } else if b < 62 {
        (48 + (b - 52)) as char
    } else if b == 62 {
        '+'
    } else {
        '/'
    }
}

/// Standard base64 encoding, without line breaks.
pub fn base64_encode(input: &[u8]) -> (r: String)
    ensures
        r@ == base64(input@),
{
    let mut out = String::new();
    let mut i: usize = 0;
    assert(input@.skip(0) =~= input@);
    assert(Seq::<char>::empty() + base64(input@) =~= base64(input@));
    while i < input.len()
        invariant
            i <= input@.len(),
            base64(input@) == out@ + base64(input@.skip(i as int)),
        decreases input@.len() - i,
    {
        let left: usize = input.len() - i;
        let ghost rest = input@.skip(i as int);
        let ghost before = out@;
        let b0: u32 = input[i] as u32;
        let b1: u32 = if left > 1 {
            input[i + 1] as u32
        } else {
            0
        };
        let b2: u32 = if left > 2 {
            input[i + 2] as u32
        } else {
            0
        };
        let n: u32 = b0 * 0x10000 + b1 * 0x100 + b2;
        let c0: char = base64_char_of(n / 0x40000);
        let c1: char = base64_char_of(n / 0x1000 % 64);
        let c2: char = if left > 1 {
            base64_char_of(n / 64 % 64)
        } else {
            '='
        };
        let c3: char = if left > 2 {
            base64_char_of(n % 64)
        } else {
            '='
        };
        out.push(c0);
        out.push(c1);
        out.push(c2);
        out.push(c3);
        let ghost group = seq![c0, c1, c2, c3];
        assert(out@ =~= before + group);
        if left <= 3 {
            assert(group =~= base64_group(rest));
            i = input.len();
            assert(base64(input@.skip(i as int)) =~= Seq::<char>::empty());
            assert(out@ + Seq::<char>::empty() =~= out@);
        } else {
            assert(group =~= base64_group(rest.take(3)));
            assert(rest.skip(3) =~= input@.skip(i + 3));
            assert(before + (group + base64(rest.skip(3))) =~= before + group + base64(
                rest.skip(3),
            ));
            i = i + 3;
        }
    }
    assert(out@ + Seq::<char>::empty() =~= out@);
    out
}

// ---------------------------------------------------------------------------------------------
// Shell words.
/// A text between single quotes, with each single quote inside it written as `'\''`.
pub open spec fn quoted_body(s: Seq<char>) -> Seq<char>
    decreases s.len(),
{
    if s.len() == 0 {
        Seq::empty()
    } else if s[0] == '\'' {
        seq!['\'', '\\', '\'', '\''] + quoted_body(s.skip(1))
    } else {
        seq![s[0]] + quoted_body(s.skip(1))
    }
}

/// A text as one single-quoted shell word.
pub open spec fn quoted(s: Seq<char>) -> Seq<char> {
    seq!['\''] + quoted_body(s) + seq!['\'']
}

/// Each text as a shell word of its own, with a space before it.
pub open spec fn quoted_args(args: Seq<Seq<char>>) -> Seq<char>
    decreases args.len(),
{
    if args.len() == 0 {
        Seq::empty()
    } else {
        seq![' '] + quoted(args[0]) + quoted_args(args.skip(1))
    }
}

/// The command that feeds a script on standard input to a remote `bash` with the given
/// positional arguments.
pub open spec fn bash_command(args: Seq<Seq<char>>) -> Seq<char> {
    "bash -s --"@ + quoted_args(args)
}

/// Where a shell stands while it takes a command apart.
pub enum Lex {
    /// Between two words.
    Blank,
    /// Inside a word.
    Word,
    /// Inside single quotes, which are part of a word.
    Quote,
}

/// Characters that stand for themselves outside quotes.
pub open spec fn is_plain(c: char) -> bool {
    ||| 'a' <= c && c <= 'z'
    ||| 'A' <= c && c <= 'Z'
    ||| '0' <= c && c <= '9'
    ||| c == '-'
    ||| c == '_'
    ||| c == '.'
    ||| c == '/'
}

/// The words that a POSIX shell makes of `s`, after the words `done` and the part `word` of a
/// word; `None` where a character may mean anything else than itself to the shell, and where a
/// quote is left open.
pub open spec fn lexed(
    s: Seq<char>,
    at: Lex,
    word: Seq<char>,
    done: Seq<Seq<char>>,
) -> Option<Seq<Seq<char>>>
    decreases s.len(),
{
    if s.len() == 0 {
        match at {
            Lex::Blank => Some(done),
            Lex::Word => Some(done.push(word)),
            Lex::Quote => None,
        }
    } else {
        let c = s[0];
        match at {
            Lex::Quote => if c == '\'' {
                lexed(s.skip(1), Lex::Word, word, done)
            } else {
                lexed(s.skip(1), Lex::Quote, word.push(c), done)
            },
            _ => {
                let have = if at is Word {
                    word
                } else {
                    Seq::empty()
                };
                if c == ' ' {
                    lexed(
                        s.skip(1),
                        Lex::Blank,
                        Seq::empty(),
                        if at is Word {
                            done.push(word)
                        } else {
                            done
                        },
                    )
                } else if c == '\'' {
                    lexed(s.skip(1), Lex::Quote, have, done)
                } else if c == '\\' && s.len() > 1 && s[1] != '\n' {
                    lexed(s.skip(2), Lex::Word, have.push(s[1]), done)
                } else if is_plain(c) {
                    lexed(s.skip(1), Lex::Word, have.push(c), done)
                } else {
                    None
                }
            },
        }
    }
}

/// The words that a POSIX shell makes of a command.
pub open spec fn shell_words(s: Seq<char>) -> Option<Seq<Seq<char>>> {
    lexed(s, Lex::Blank, Seq::empty(), Seq::empty())
}

proof fn lemma_lex_body(a: Seq<char>, rest: Seq<char>, word: Seq<char>, done: Seq<Seq<char>>)
    ensures
        lexed(quoted_body(a) + rest, Lex::Quote, word, done) == lexed(
            rest,
            Lex::Quote,
            word + a,
            done,
        ),
    decreases a.len(),
{
    if a.len() == 0 {
        assert(quoted_body(a) + rest =~= rest);
        assert(word + a =~= word);
    } else {
        let c = a[0];
        let tail = quoted_body(a.skip(1)) + rest;
        lemma_lex_body(a.skip(1), rest, word.push(c), done);
        assert(word.push(c) + a.skip(1) =~= word + a);
        let s = quoted_body(a) + rest;
        if c == '\'' {
            assert(s.len() >= 4);
            assert(s.skip(1).skip(2).skip(1) =~= tail);
            assert(s.skip(1)[0] == '\\' && s.skip(1)[1] == '\'');
            assert(s.skip(1).skip(2)[0] == '\'');
            assert(lexed(s, Lex::Quote, word, done) == lexed(s.skip(1), Lex::Word, word, done));
            assert(lexed(s.skip(1), Lex::Word, word, done) == lexed(
                s.skip(1).skip(2),
                Lex::Word,
                word.push(c),
                done,
            ));
            assert(lexed(s.skip(1).skip(2), Lex::Word, word.push(c), done) == lexed(
                tail,
                Lex::Quote,
                word.push(c),
                done,
            ));
        } else {
            assert(s.skip(1) =~= tail);
            assert(lexed(s, Lex::Quote, word, done) == lexed(tail, Lex::Quote, word.push(c), done));
        }
    }
}

proof fn lemma_lex_quoted(a: Seq<char>, rest: Seq<char>, done: Seq<Seq<char>>)
    ensures
        lexed(quoted(a) + rest, Lex::Blank, Seq::empty(), done) == lexed(
            rest,
            Lex::Word,
            a,
            done,
        ),
{
    let s = quoted(a) + rest;
    let t = quoted_body(a) + (seq!['\''] + rest);
    assert(s.skip(1) =~= t);
    lemma_lex_body(a, seq!['\''] + rest, Seq::empty(), done);
    assert(Seq::<char>::empty() + a =~= a);
    assert((seq!['\''] + rest).skip(1) =~= rest);
}

proof fn lemma_lex_args(args: Seq<Seq<char>>, word: Seq<char>, done: Seq<Seq<char>>)
    ensures
        lexed(quoted_args(args), Lex::Word, word, done) == Some(done.push(word) + args),
    decreases args.len(),
{
    if args.len() == 0 {
        assert(done.push(word) + args =~= done.push(word));
    } else {
        let s = quoted_args(args);
        let rest = quoted_args(args.skip(1));
        assert(s.skip(1) =~= quoted(args[0]) + rest);
        lemma_lex_quoted(args[0], rest, done.push(word));
        lemma_lex_args(args.skip(1), args[0], done.push(word));
        assert(done.push(word).push(args[0]) + args.skip(1) =~= done.push(word) + args);
    }
}

/// A quoted value stays one literal word, whatever it holds.
pub proof fn quoting_keeps_one_word(s: Seq<char>)
    ensures
        shell_words(quoted(s)) == Some(seq![s]),
{
    assert(quoted(s) + Seq::<char>::empty() =~= quoted(s));
    lemma_lex_quoted(s, Seq::empty(), Seq::empty());
    assert(Seq::<Seq<char>>::empty().push(s) =~= seq![s]);
}

/// The remote shell hands a script exactly the given arguments: no value can break out of its
/// place, whatever it holds.
pub proof fn arguments_cannot_break_out(args: Seq<Seq<char>>)
    ensures
        shell_words(bash_command(args)) == Some(seq!["bash"@, "-s"@, "--"@] + args),
{
    let s = bash_command(args);
    let q = quoted_args(args);
    reveal_strlit("bash -s --");
    reveal_strlit("bash");
    reveal_strlit("-s");
    reveal_strlit("--");
    assert("bash"@ =~= seq!['b', 'a', 's', 'h']);
    assert("-s"@ =~= seq!['-', 's']);
    assert("--"@ =~= seq!['-', '-']);
    let none = Seq::<Seq<char>>::empty();
    let w = Seq::<char>::empty();
    let d1 = none.push("bash"@);
    let d2 = d1.push("-s"@);
    assert(s.skip(1).skip(1).skip(1).skip(1) =~= s.skip(4));
    assert(w.push('b').push('a').push('s').push('h') =~= "bash"@);
    assert(lexed(s, Lex::Blank, w, none) == lexed(s.skip(4), Lex::Word, "bash"@, none)) by {
        reveal_with_fuel(lexed, 5);
    }
    assert(s.skip(4).skip(1).skip(1).skip(1) =~= s.skip(7));
    assert(w.push('-').push('s') =~= "-s"@);
    assert(lexed(s.skip(4), Lex::Word, "bash"@, none) == lexed(s.skip(7), Lex::Word, "-s"@, d1))
        by {
        reveal_with_fuel(lexed, 4);
    }
    assert(s.skip(7).skip(1).skip(1).skip(1) =~= q);
    assert(w.push('-').push('-') =~= "--"@);
    assert(lexed(s.skip(7), Lex::Word, "-s"@, d1) == lexed(q, Lex::Word, "--"@, d2)) by {
        reveal_with_fuel(lexed, 4);
    }
    lemma_lex_args(args, "--"@, d2);
    assert(d2.push("--"@) =~= seq!["bash"@, "-s"@, "--"@]);
}

/// Whether the first `n` characters stand for themselves.
pub open spec fn plain_upto(s: Seq<char>, n: nat) -> bool
    decreases n,
{
    n == 0 || (is_plain(s[n - 1]) && plain_upto(s, (n - 1) as nat))
}

/// A word that stands for itself without quotes.
pub open spec fn is_plain_word(w: Seq<char>) -> bool {
    w.len() > 0 && forall|i: int| 0 <= i < w.len() ==> is_plain(#[trigger] w[i])
}

pub proof fn lemma_plain_upto(s: Seq<char>, n: nat)
    requires
        plain_upto(s, n),
    ensures
        forall|i: int| 0 <= i < n ==> is_plain(#[trigger] s[i]),
    decreases n,
{
    if n > 0 {
        lemma_plain_upto(s, (n - 1) as nat);
    }
}

proof fn lemma_lex_plain(w: Seq<char>, rest: Seq<char>, word: Seq<char>, done: Seq<Seq<char>>)
    requires
        forall|i: int| 0 <= i < w.len() ==> is_plain(#[trigger] w[i]),
    ensures
        lexed(w + rest, Lex::Word, word, done) == lexed(rest, Lex::Word, word + w, done),
    decreases w.len(),
{
    if w.len() == 0 {
        assert(w + rest =~= rest);
        assert(word + w =~= word);
    } else {
        let t = w.skip(1);
        assert forall|i: int| 0 <= i < t.len() implies is_plain(#[trigger] t[i]) by {
            assert(t[i] == w[i + 1]);
        }
        lemma_lex_plain(t, rest, word.push(w[0]), done);
        assert(is_plain(w[0]));
        assert((w + rest).skip(1) =~= t + rest);
        assert(word.push(w[0]) + t =~= word + w);
    }
}

proof fn lemma_lex_words(ws: Seq<Seq<char>>, rest: Seq<char>)
    requires
        ws.len() > 0,
        forall|i: int| 0 <= i < ws.len() ==> is_plain_word(#[trigger] ws[i]),
    ensures
        lexed(joined(ws, " "@) + rest, Lex::Blank, Seq::empty(), Seq::empty()) == lexed(
            rest,
            Lex::Word,
            ws.last(),
            ws.drop_last(),
        ),
    decreases ws.len(),
{
    reveal_strlit(" ");
    assert(" "@ =~= seq![' ']);
    let none = Seq::<char>::empty();
    let last = ws.last();
    assert(is_plain_word(ws[ws.len() - 1]));
    let tail = last.skip(1);
    assert forall|i: int| 0 <= i < tail.len() implies is_plain(#[trigger] tail[i]) by {
        assert(tail[i] == last[i + 1]);
    }
    assert(is_plain(last[0]));
    assert((last + rest).skip(1) =~= tail + rest);
    assert(none.push(last[0]) + tail =~= last);
    if ws.len() == 1 {
        assert(lexed(last + rest, Lex::Blank, none, Seq::empty()) == lexed(
            tail + rest,
            Lex::Word,
            none.push(last[0]),
            Seq::empty(),
        ));
        lemma_lex_plain(tail, rest, none.push(last[0]), Seq::empty());
        assert(ws.drop_last() =~= Seq::<Seq<char>>::empty());
    } else {
        let init = ws.drop_last();
        assert forall|i: int| 0 <= i < init.len() implies is_plain_word(#[trigger] init[i]) by {
            assert(init[i] == ws[i]);
        }
        let more = seq![' '] + (last + rest);
        lemma_lex_words(init, more);
        assert(joined(ws, " "@) + rest =~= joined(init, " "@) + more);
        assert(more.skip(1) =~= last + rest);
        assert(init.drop_last().push(init.last()) =~= init);
        assert(lexed(more, Lex::Word, init.last(), init.drop_last()) == lexed(
            last + rest,
            Lex::Blank,
            none,
            init,
        ));
        assert(lexed(last + rest, Lex::Blank, none, init) == lexed(
            tail + rest,
            Lex::Word,
            none.push(last[0]),
            init,
        ));
        lemma_lex_plain(tail, rest, none.push(last[0]), init);
    }
}

/// Words that stand for themselves, with a space between each two, are those words to a shell.
pub proof fn plain_words_stay_words(ws: Seq<Seq<char>>)
    requires
        ws.len() > 0,
        forall|i: int| 0 <= i < ws.len() ==> is_plain_word(#[trigger] ws[i]),
    ensures
        shell_words(joined(ws, " "@)) == Some(ws),
{
    lemma_lex_words(ws, Seq::empty());
    assert(joined(ws, " "@) + Seq::<char>::empty() =~= joined(ws, " "@));
    assert(ws.drop_last().push(ws.last()) =~= ws);
}

/// A shell finds the same words in two commands only where they are given the same arguments.
pub proof fn commands_differ_where_arguments_differ(a: Seq<Seq<char>>, b: Seq<Seq<char>>)
    requires
        bash_command(a) == bash_command(b),
    ensures
        a == b,
{
    arguments_cannot_break_out(a);
    arguments_cannot_break_out(b);
    let h = seq!["bash"@, "-s"@, "--"@];
    assert((h + a).skip(3) =~= a);
    assert((h + b).skip(3) =~= b);
}

/// Wraps a value in single quotes, with each single quote inside it written as `'\''`.
pub fn shell_quote(s: &str) -> (r: String)
    ensures
        r@ == quoted(s@),
{
    let cs: Vec<char> = chars_of(s);
    let mut out = String::new();
    out.push('\'');
    let mut i: usize = 0;
    assert(cs@.skip(0) =~= cs@);
    assert(out@ =~= seq!['\'']);
    while i < cs.len()
        invariant
            i <= cs@.len(),
            cs@ == s@,
            seq!['\''] + quoted_body(s@) == out@ + quoted_body(cs@.skip(i as int)),
        decreases cs@.len() - i,
    {
        let c: char = cs[i];
        let ghost before = out@;
        let ghost rest = cs@.skip(i as int);
        assert(rest.skip(1) =~= cs@.skip(i + 1));
        if c == '\'' {
            out.push('\'');
            out.push('\\');
            out.push('\'');
            out.push('\'');
            assert(out@ =~= before + seq!['\'', '\\', '\'', '\'']);
            assert(before + (seq!['\'', '\\', '\'', '\''] + quoted_body(rest.skip(1))) =~= out@
                + quoted_body(rest.skip(1)));
        } else {
            out.push(c);
            assert(before + (seq![c] + quoted_body(rest.skip(1))) =~= out@ + quoted_body(
                rest.skip(1),
            ));
        }
        i = i + 1;
    }
    assert(out@ + Seq::<char>::empty() =~= out@);
    out.push('\'');
    assert(out@ =~= quoted(s@));
    out
}

/// The command that runs a script on standard input with the given positional arguments.
pub fn bash_command_text(args: &Vec<String>) -> (r: String)
    ensures
        r@ == bash_command(args.deep_view()),
{
    let mut out: String = "bash -s --".to_owned();
    let mut i: usize = 0;
    assert(args.deep_view().skip(0) =~= args.deep_view());
    while i < args.len()
        invariant
            i <= args@.len(),
            bash_command(args.deep_view()) == out@ + quoted_args(args.deep_view().skip(i as int)),
        decreases args@.len() - i,
    {
        let ghost before = out@;
        let ghost rest = args.deep_view().skip(i as int);
        let q: String = shell_quote(args[i].as_str());
        out.push(' ');
        out.append(q.as_str());
        assert(rest[0] == args@[i as int]@);
        assert(rest.skip(1) =~= args.deep_view().skip(i + 1));
        assert(before + (seq![' '] + q@ + quoted_args(rest.skip(1))) =~= before.push(' ') + q@
            + quoted_args(rest.skip(1)));
        i = i + 1;
    }
    assert(out@ + Seq::<char>::empty() =~= out@);
    out
}

} // verus!
