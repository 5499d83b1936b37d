use vstd::prelude::*;
use crate::strutil::{chars_to_string, spec_join};

verus! {

/// Characters that delimit words when they appear unquoted and unescaped.
pub open spec fn is_blank(c: char) -> bool {
    c == ' ' || c == '\t'
}

/// One step short of the tokenizer: the whole quote/escape state machine,
/// consuming `s` with quoting state (`in_s` for single quotes, `in_d` for
/// double quotes), the word collected so far (`cur`) and the words already
/// finished (`acc`).
///
/// Rules: inside single quotes every character but the closing quote is
/// literal; inside double quotes a backslash escapes only `"` and `\` and is
/// otherwise kept; outside quotes a backslash makes the next character
/// literal, blanks delimit words, and quote characters toggle their region
/// without being emitted. A word is finished only when non-empty, so runs of
/// blanks collapse and no empty words appear. A trailing lone backslash is
/// dropped, and an unterminated quote still yields the word collected so far.
pub open spec fn spec_tokenize_rec(
    s: Seq<char>,
    in_s: bool,
    in_d: bool,
    cur: Seq<char>,
    acc: Seq<Seq<char>>,
) -> Seq<Seq<char>>
    decreases s.len(),
{
    if s.len() == 0 {
        if cur.len() == 0 {
            acc
        } else {
            acc.push(cur)
        }
    } else {
        let c = s[0];
        let rest = s.drop_first();
        if in_s {
            if c == '\'' {
                spec_tokenize_rec(rest, false, in_d, cur, acc)
            } else {
                spec_tokenize_rec(rest, true, in_d, cur.push(c), acc)
            }
        } else if in_d {
            if c == '"' {
                spec_tokenize_rec(rest, in_s, false, cur, acc)
            } else if c == '\\' {
                if rest.len() == 0 {
                    spec_tokenize_rec(rest, in_s, true, cur, acc)
                } else if rest[0] == '"' || rest[0] == '\\' {
                    spec_tokenize_rec(rest.drop_first(), in_s, true, cur.push(rest[0]), acc)
                } else {
                    spec_tokenize_rec(
                        rest.drop_first(),
                        in_s,
                        true,
                        cur.push('\\').push(rest[0]),
                        acc,
                    )
                }
            } else {
                spec_tokenize_rec(rest, in_s, true, cur.push(c), acc)
            }
        } else {
            if c == '\'' {
                spec_tokenize_rec(rest, true, false, cur, acc)
            } else if c == '"' {
                spec_tokenize_rec(rest, false, true, cur, acc)
            } else if c == '\\' {
                if rest.len() == 0 {
                    spec_tokenize_rec(rest, false, false, cur, acc)
                } else {
                    spec_tokenize_rec(rest.drop_first(), false, false, cur.push(rest[0]), acc)
                }
            } else if is_blank(c) {
                if cur.len() == 0 {
                    spec_tokenize_rec(rest, false, false, cur, acc)
                } else {
                    spec_tokenize_rec(rest, false, false, Seq::empty(), acc.push(cur))
                }
            } else {
                spec_tokenize_rec(rest, false, false, cur.push(c), acc)
            }
        }
    }
}

/// The words that one line of input denotes, quotes and escapes resolved.
pub open spec fn spec_tokenize(s: Seq<char>) -> Seq<Seq<char>> {
    spec_tokenize_rec(s, false, false, Seq::empty(), Seq::empty())
}

/// Split one raw line into words, resolving quotes and escapes exactly as
/// `spec_tokenize` describes.
pub fn parse(input: &str) -> (tokens: Vec<String>)
    ensures
        tokens.deep_view() == spec_tokenize(input@),
{
    let n = input.unicode_len();
    let mut i: usize = 0;
    let mut in_single = false;
    let mut in_double = false;
    let mut current: Vec<char> = Vec::new();
    let mut tokens: Vec<String> = Vec::new();
    proof {
        assert(input@.subrange(0, n as int) =~= input@);
        assert(tokens.deep_view() =~= Seq::<Seq<char>>::empty());
    }
    while i < n
        invariant
            i <= n,
            n == input@.len(),
            !(in_single && in_double),
            spec_tokenize(input@) == spec_tokenize_rec(
                input@.subrange(i as int, n as int),
                in_single,
                in_double,
                current@,
                tokens.deep_view(),
            ),
        decreases n - i,
    {
        let ghost rest = input@.subrange(i as int, n as int);
        proof {
            assert(rest[0] == input@[i as int]);
            assert(rest.drop_first() =~= input@.subrange(i as int + 1, n as int));
        }
        let c = input.get_char(i);
        if in_single {
            if c == '\'' {
                in_single = false;
            } else {
                current.push(c);
            }
            i = i + 1;
        } else if in_double {
            if c == '"' {
                in_double = false;
                i = i + 1;
            } else if c == '\\' {
                if i + 1 == n {
                    i = i + 1;
                } else {
                    proof {
                        assert(rest.drop_first().drop_first() =~= input@.subrange(
                            i as int + 2,
                            n as int,
                        ));
                        assert(rest.drop_first()[0] == input@[i as int + 1]);
                    }
                    let c2 = input.get_char(i + 1);
                    if c2 == '"' || c2 == '\\' {
                        current.push(c2);
                    } else {
                        current.push('\\');
                        current.push(c2);
                    }
                    i = i + 2;
                }
            } else {
                current.push(c);
                i = i + 1;
            }
        } else {
            if c == '\'' {
                in_single = true;
                i = i + 1;
            } else if c == '"' {
                in_double = true;
                i = i + 1;
            } else if c == '\\' {
                if i + 1 == n {
                    i = i + 1;
                } else {
                    proof {
                        assert(rest.drop_first().drop_first() =~= input@.subrange(
                            i as int + 2,
                            n as int,
                        ));
                        assert(rest.drop_first()[0] == input@[i as int + 1]);
                    }
                    let c2 = input.get_char(i + 1);
                    current.push(c2);
                    i = i + 2;
                }
            } else if c == ' ' || c == '\t' {
                if current.len() > 0 {
                    let ghost old_tokens = tokens.deep_view();
                    let word = chars_to_string(&current);
                    tokens.push(word);
                    current = Vec::new();
                    proof {
                        assert(tokens.deep_view() =~= old_tokens.push(word@));
                    }
                }
                i = i + 1;
            } else {
                current.push(c);
                i = i + 1;
            }
        }
    }
    proof {
        assert(input@.subrange(n as int, n as int) =~= Seq::<char>::empty());
    }
    if current.len() > 0 {
        let ghost old_tokens = tokens.deep_view();
        let word = chars_to_string(&current);
        tokens.push(word);
        proof {
            assert(tokens.deep_view() =~= old_tokens.push(word@));
        }
    }
    tokens
}

/// A word the tokenizer hands through untouched: non-empty, and free of
/// blanks, quotes and backslashes.
pub open spec fn plain_word(w: Seq<char>) -> bool {
    w.len() > 0 && forall|i: int|
        0 <= i < w.len() ==> !is_blank(#[trigger] w[i]) && w[i] != '\'' && w[i] != '"' && w[i]
            != '\\'
}

/// Consuming a plain word moves it, unchanged, onto the word being
/// collected.
proof fn lemma_consume_plain(w: Seq<char>, s: Seq<char>, cur: Seq<char>, acc: Seq<Seq<char>>)
    requires
        forall|i: int|
            0 <= i < w.len() ==> !is_blank(#[trigger] w[i]) && w[i] != '\'' && w[i] != '"' && w[i]
                != '\\',
    ensures
        spec_tokenize_rec(w + s, false, false, cur, acc) == spec_tokenize_rec(
            s,
            false,
            false,
            cur + w,
            acc,
        ),
    decreases w.len(),
{
    if w.len() == 0 {
        assert(w + s =~= s);
        assert(cur + w =~= cur);
    } else {
        let c = w[0];
        assert((w + s)[0] == c);
        assert((w + s).drop_first() =~= w.drop_first() + s);
        assert(forall|i: int|
            0 <= i < w.drop_first().len() ==> !is_blank(#[trigger] w.drop_first()[i])
                && w.drop_first()[i] != '\'' && w.drop_first()[i] != '"' && w.drop_first()[i]
                != '\\') by {
            assert(forall|i: int|
                0 <= i < w.drop_first().len() ==> #[trigger] w.drop_first()[i] == w[i + 1]);
        }
        lemma_consume_plain(w.drop_first(), s, cur.push(c), acc);
        assert(cur.push(c) + w.drop_first() =~= cur + w);
    }
}

/// Tokenizing the space-joined rendering of plain words, with `acc` already
/// collected, appends exactly those words.
proof fn lemma_tokenize_join_rec(words: Seq<Seq<char>>, acc: Seq<Seq<char>>)
    requires
        words.len() > 0,
        forall|i: int| 0 <= i < words.len() ==> plain_word(#[trigger] words[i]),
    ensures
        spec_tokenize_rec(spec_join(words, " "@), false, false, Seq::empty(), acc) == acc + words,
    decreases words.len(),
{
    reveal_strlit(" ");
    let w0 = words[0];
    assert(plain_word(w0));
    if words.len() == 1 {
        lemma_consume_plain(w0, Seq::empty(), Seq::empty(), acc);
        assert(w0 + Seq::<char>::empty() =~= w0);
        assert(Seq::<char>::empty() + w0 =~= w0);
        assert(spec_tokenize_rec(Seq::<char>::empty(), false, false, w0, acc) == acc.push(w0));
        assert(acc.push(w0) =~= acc + words);
    } else {
        let rest = words.drop_first();
        let rest_join = spec_join(rest, " "@);
        assert(spec_join(words, " "@) == w0 + " "@ + rest_join);
        assert(w0 + " "@ + rest_join =~= w0 + (" "@ + rest_join));
        lemma_consume_plain(w0, " "@ + rest_join, Seq::empty(), acc);
        assert(Seq::<char>::empty() + w0 =~= w0);
        assert((" "@ + rest_join)[0] == ' ');
        assert((" "@ + rest_join).drop_first() =~= rest_join);
        assert(spec_tokenize_rec(" "@ + rest_join, false, false, w0, acc) == spec_tokenize_rec(
            rest_join,
            false,
            false,
            Seq::empty(),
            acc.push(w0),
        ));
        assert(forall|i: int| 0 <= i < rest.len() ==> plain_word(#[trigger] rest[i])) by {
            assert(forall|i: int| 0 <= i < rest.len() ==> #[trigger] rest[i] == words[i + 1]);
        }
        lemma_tokenize_join_rec(rest, acc.push(w0));
        assert(acc.push(w0) + rest =~= acc + words);
    }
}

/// Round trip: joining plain words with single spaces and tokenizing the
/// result gives back exactly those words.
pub proof fn lemma_tokenize_join(words: Seq<Seq<char>>)
    requires
        forall|i: int| 0 <= i < words.len() ==> plain_word(#[trigger] words[i]),
    ensures
        spec_tokenize(spec_join(words, " "@)) == words,
{
    if words.len() == 0 {
        assert(spec_tokenize_rec(
            Seq::<char>::empty(),
            false,
            false,
            Seq::<char>::empty(),
            Seq::<Seq<char>>::empty(),
        ) == Seq::<Seq<char>>::empty());
        assert(Seq::<Seq<char>>::empty() =~= words);
    } else {
        lemma_tokenize_join_rec(words, Seq::empty());
        assert(Seq::<Seq<char>>::empty() + words =~= words);
    }
}

} // verus!
