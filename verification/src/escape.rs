//! The escaping boundary: every piece of caller-supplied text passes through
//! [`html_escape`] before it is placed into markup.

use vstd::prelude::*;
use vstd::std_specs::iter::IteratorSpec;
use vstd::string::*;
use crate::text::push_char;

verus! {

/// What one character becomes inside markup: the five reserved characters
/// turn into their entities, every other character stays as it is.
pub open spec fn escape_char(c: char) -> Seq<char> {
    if c == '&' {
        seq!['&', 'a', 'm', 'p', ';']
    } else if c == '<' {
        seq!['&', 'l', 't', ';']
    } else if c == '>' {
        seq!['&', 'g', 't', ';']
    } else if c == '"' {
        seq!['&', 'q', 'u', 'o', 't', ';']
    } else if c == '\'' {
        seq!['&', '#', '3', '9', ';']
    } else {
        seq![c]
    }
}

/// The escaped form of a text: the escaped forms of its characters, in order.
pub open spec fn escaped(s: Seq<char>) -> Seq<char>
    decreases s.len(),
{
    if s.len() == 0 {
        Seq::empty()
    } else {
        escaped(s.drop_last()) + escape_char(s.last())
    }
}

/// True for the four characters that can open or close markup or an
/// attribute value. The ampersand is left out: it survives escaping, but only
/// as the first character of an entity.
pub open spec fn is_structural(c: char) -> bool {
    c == '<' || c == '>' || c == '"' || c == '\''
}

/// True when no character of `s` can open or close markup or an attribute.
pub open spec fn markup_free(s: Seq<char>) -> bool {
    forall|i: int| 0 <= i < s.len() ==> !is_structural(#[trigger] s[i])
}

/// Escapes the five reserved markup characters of `s`.
///
/// `&` becomes `&amp;`, `<` becomes `&lt;`, `>` becomes `&gt;`, `"` becomes
/// `&quot;` and `'` becomes `&#39;`; every other character is kept. The
/// result holds none of `<`, `>`, `"` and `'`.
pub fn html_escape(s: &str) -> (out: String)
    ensures
        out@ == escaped(s@),
        markup_free(out@),
{
    let mut out = String::new();
    let mut it = s.chars();
    let ghost mut done: int = 0;
    loop
        invariant
            0 <= done <= s@.len(),
            it.remaining() == s@.skip(done),
            out@ == escaped(s@.take(done)),
        ensures
            out@ == escaped(s@),
        decreases s@.len() - done,
    {
        broadcast use group_string_axioms;
        match it.next() {
            Some(c) => {
                proof {
                    assert(s@.skip(done).drop_first() == s@.skip(done + 1));
                    assert(s@.take(done + 1).drop_last() == s@.take(done));
                    assert(s@.take(done + 1).last() == c);
                    reveal_strlit("&amp;");
                    reveal_strlit("&lt;");
                    reveal_strlit("&gt;");
                    reveal_strlit("&quot;");
                    reveal_strlit("&#39;");
                }
                if c == '&' {
                    out.append("&amp;");
                    assert("&amp;"@ == escape_char(c));
                } else if c == '<' {
                    out.append("&lt;");
                    assert("&lt;"@ == escape_char(c));
                } else if c == '>' {
                    out.append("&gt;");
                    assert("&gt;"@ == escape_char(c));
                } else if c == '"' {
                    out.append("&quot;");
                    assert("&quot;"@ == escape_char(c));
                } else if c == '\'' {
                    out.append("&#39;");
                    assert("&#39;"@ == escape_char(c));
                } else {
                    push_char(&mut out, c);
                    assert(seq![c] == escape_char(c));
                    assert(out@ == escaped(s@.take(done)) + seq![c]);
                }
                proof {
                    done = done + 1;
                }
            },
            None => {
                assert(s@.take(done) == s@);
                break ;
            },
        }
    }
    proof {
        lemma_escaped_is_markup_free(s@);
    }
    out
}

/// True for the five characters that escaping replaces.
pub open spec fn is_reserved(c: char) -> bool {
    c == '&' || is_structural(c)
}

/// Escaped text holds no character that can open or close markup or an
/// attribute value: no `<`, no `>`, no `"` and no `'`. Whatever a text
/// holds, a tag in it, a script, a closing quote, its escaped form is inert.
pub proof fn lemma_escaped_is_markup_free(s: Seq<char>)
    ensures
        markup_free(escaped(s)),
    decreases s.len(),
{
    if s.len() > 0 {
        lemma_escaped_is_markup_free(s.drop_last());
        let head = escaped(s.drop_last());
        let tail = escape_char(s.last());
        assert forall|i: int| 0 <= i < escaped(s).len() implies !is_structural(
            #[trigger] escaped(s)[i],
        ) by {
            if i < head.len() {
                assert(escaped(s)[i] == head[i]);
            } else {
                assert(escaped(s)[i] == tail[i - head.len()]);
            }
        }
    }
}

/// Escaping goes piece by piece: the escaped form of a text in two parts is
/// the escaped forms of the parts, one after the other.
pub proof fn lemma_escaped_concat(a: Seq<char>, b: Seq<char>)
    ensures
        escaped(a + b) == escaped(a) + escaped(b),
    decreases b.len(),
{
    if b.len() == 0 {
        assert(a + b =~= a);
        assert(escaped(a) + escaped(b) =~= escaped(a));
    } else {
        lemma_escaped_concat(a, b.drop_last());
        assert((a + b).drop_last() =~= a + b.drop_last());
        assert((a + b).last() == b.last());
        assert(escaped(a + b) =~= escaped(a) + escaped(b));
    }
}

/// Text without reserved characters is its own escaped form.
pub proof fn lemma_escaped_plain(s: Seq<char>)
    requires
        forall|i: int| 0 <= i < s.len() ==> !is_reserved(#[trigger] s[i]),
    ensures
        escaped(s) == s,
    decreases s.len(),
{
    if s.len() > 0 {
        lemma_escaped_plain(s.drop_last());
        assert(escaped(s) =~= s);
    }
}

/// The escaped form of a text begins with the escaped form of its first
/// character.
pub proof fn lemma_escaped_first(s: Seq<char>)
    requires
        s.len() > 0,
    ensures
        escaped(s) == escape_char(s.first()) + escaped(s.drop_first()),
{
    let head = seq![s.first()];
    lemma_escaped_concat(head, s.drop_first());
    assert(head + s.drop_first() =~= s);
    assert(head.drop_last() =~= Seq::<char>::empty());
    assert(head.last() == s.first());
    assert(escaped(head.drop_last()) =~= Seq::<char>::empty());
    assert(escaped(head) =~= escaped(head.drop_last()) + escape_char(head.last()));
    assert(escaped(head) =~= escape_char(s.first()));
}

/// Escaping loses nothing: two texts with the same escaped form are the
/// same text.
pub proof fn lemma_escaped_is_injective(a: Seq<char>, b: Seq<char>)
    requires
        escaped(a) == escaped(b),
    ensures
        a == b,
    decreases a.len(),
{
    if a.len() == 0 {
        if b.len() > 0 {
            lemma_escaped_first(b);
        }
        assert(a =~= b);
    } else {
        lemma_escaped_first(a);
        if b.len() == 0 {
            assert(false);
        }
        lemma_escaped_first(b);
        let whole = escaped(a);
        let p = escape_char(a.first());
        let q = escape_char(b.first());
        let x = escaped(a.drop_first());
        let y = escaped(b.drop_first());
        // The first character tells a kept character from an entity, and
        // the second tells the entities apart.
        assert(whole[0] == p[0] && whole[0] == q[0]);
        if p.len() > 1 {
            assert(whole[1] == p[1] && whole[1] == q[1]);
        }
        assert(a.first() == b.first());
        assert(x =~= y) by {
            assert(whole.len() == p.len() + x.len() && whole.len() == p.len() + y.len());
            assert forall|i: int| 0 <= i < x.len() implies x[i] == y[i] by {
                assert(whole[p.len() + i] == x[i]);
                assert(whole[p.len() + i] == y[i]);
            }
        }
        lemma_escaped_is_injective(a.drop_first(), b.drop_first());
        assert(a =~= seq![a.first()] + a.drop_first());
        assert(b =~= seq![b.first()] + b.drop_first());
    }
}

} // verus!
