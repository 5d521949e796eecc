//! Entity escaping of the five characters that carry meaning in HTML text.

use vstd::prelude::*;

verus! {

/// Whether `c` is written as an entity.
pub open spec fn is_special(c: char) -> bool {
    c == '"' || c == '&' || c == '\'' || c == '<' || c == '>'
}

/// What stands for `c` in escaped text: its entity where it is special, else
/// `c` itself.
pub open spec fn entity_of(c: char) -> Seq<char> {
    if c == '"' {
        seq!['&', 'q', 'u', 'o', 't', ';']
    } else if c == '&' {
        seq!['&', 'a', 'm', 'p', ';']
    } else if c == '\'' {
        seq!['&', '#', 'x', '2', '7', ';']
    } else if c == '<' {
        seq!['&', 'l', 't', ';']
    } else if c == '>' {
        seq!['&', 'g', 't', ';']
    } else {
        seq![c]
    }
}

/// `s` with every special character replaced by its entity.
pub open spec fn escaped(s: Seq<char>) -> Seq<char>
    decreases s.len(),
{
    if s.len() == 0 {
        Seq::empty()
    } else {
        escaped(s.drop_last()) + entity_of(s.last())
    }
}

/// Whether `p` stands in `t` from position `i` on.
pub open spec fn occurs_at(t: Seq<char>, i: int, p: Seq<char>) -> bool {
    0 <= i && i + p.len() <= t.len() && t.subrange(i, i + p.len()) == p
}

/// Whether one of the five entities stands in `t` from position `i` on.
pub open spec fn entity_at(t: Seq<char>, i: int) -> bool {
    occurs_at(t, i, entity_of('"')) || occurs_at(t, i, entity_of('&')) || occurs_at(
        t,
        i,
        entity_of('\''),
    ) || occurs_at(t, i, entity_of('<')) || occurs_at(t, i, entity_of('>'))
}

/// Whether `t` holds no raw special character: no quote and no angle bracket
/// at all, and an ampersand only where it begins an entity.
pub open spec fn is_escaped(t: Seq<char>) -> bool {
    forall|i: int|
        0 <= i < t.len() ==> (#[trigger] t[i]) != '"' && t[i] != '\'' && t[i] != '<' && t[i] != '>'
            && (t[i] == '&' ==> entity_at(t, i))
}

/// `htmlescape::encode_minimal`: the text with `"`, `&`, `'`, `<` and `>`
/// replaced by `&quot;`, `&amp;`, `&#x27;`, `&lt;` and `&gt;`, every other
/// character kept.
#[verifier::external_body]
pub(crate) fn encode_minimal(s: &str) -> (r: String)
    ensures
        r@ == escaped(s@),
{
    htmlescape::encode_minimal(s)
}

/// What occurs in a text still occurs there after more text is appended.
proof fn lemma_occurs_at_extends(t: Seq<char>, more: Seq<char>, i: int, p: Seq<char>)
    requires
        occurs_at(t, i, p),
    ensures
        occurs_at(t + more, i, p),
{
    assert((t + more).subrange(i, i + p.len()) == t.subrange(i, i + p.len()));
}

/// Escaped text holds no raw special character.
pub proof fn lemma_escaped_is_escaped(s: Seq<char>)
    ensures
        is_escaped(escaped(s)),
    decreases s.len(),
{
    if s.len() > 0 {
        let head = escaped(s.drop_last());
        let tail = entity_of(s.last());
        let t = head + tail;
        lemma_escaped_is_escaped(s.drop_last());
        assert forall|i: int| 0 <= i < t.len() implies (#[trigger] t[i]) != '"' && t[i] != '\''
            && t[i] != '<' && t[i] != '>' && (t[i] == '&' ==> entity_at(t, i)) by {
            if i < head.len() {
                assert(t[i] == head[i]);
                if head[i] == '&' {
                    assert(entity_at(head, i));
                    if occurs_at(head, i, entity_of('"')) {
                        lemma_occurs_at_extends(head, tail, i, entity_of('"'));
                    }
                    if occurs_at(head, i, entity_of('&')) {
                        lemma_occurs_at_extends(head, tail, i, entity_of('&'));
                    }
                    if occurs_at(head, i, entity_of('\'')) {
                        lemma_occurs_at_extends(head, tail, i, entity_of('\''));
                    }
                    if occurs_at(head, i, entity_of('<')) {
                        lemma_occurs_at_extends(head, tail, i, entity_of('<'));
                    }
                    if occurs_at(head, i, entity_of('>')) {
                        lemma_occurs_at_extends(head, tail, i, entity_of('>'));
                    }
                }
            } else {
                let k = i - head.len();
                assert(t[i] == tail[k]);
                if t[i] == '&' {
                    assert(k == 0);
                    assert(is_special(s.last()));
                    assert(t.subrange(i, i + tail.len()) == tail);
                    assert(occurs_at(t, i, tail));
                }
            }
        }
    }
}

/// Escaping goes through concatenation.
pub proof fn lemma_escaped_concat(a: Seq<char>, b: Seq<char>)
    ensures
        escaped(a + b) == escaped(a) + escaped(b),
    decreases b.len(),
{
    if b.len() == 0 {
        assert(a + b == a);
    } else {
        lemma_escaped_concat(a, b.drop_last());
        assert((a + b).drop_last() == a + b.drop_last());
        assert((a + b).last() == b.last());
    }
}

/// Text without special characters is its own escaped form.
pub proof fn lemma_escaped_plain(s: Seq<char>)
    requires
        forall|i: int| 0 <= i < s.len() ==> !is_special(#[trigger] s[i]),
    ensures
        escaped(s) == s,
    decreases s.len(),
{
    if s.len() > 0 {
        lemma_escaped_plain(s.drop_last());
        assert(!is_special(s.last()));
        assert(s.drop_last() + seq![s.last()] == s);
    }
}

} // verus!
