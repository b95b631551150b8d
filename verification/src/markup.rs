//! Text inside markup.
use crate::text::chars_of;
use vstd::prelude::*;

verus! {

/// How a character is written inside markup text.
pub open spec fn xml_char(c: char) -> Seq<char> {
    if c == '&' {
        "&amp;"@
    } else if c == '<' {
        "&lt;"@
    } else if c == '>' {
        "&gt;"@
    } else {
        seq![c]
    }
}

/// How a character is written inside markup text or a quoted attribute.
pub open spec fn html_char(c: char) -> Seq<char> {
    if c == '"' {
        "&quot;"@
    } else {
        xml_char(c)
    }
}

/// `s` as text inside markup.
pub open spec fn xml_text(s: Seq<char>) -> Seq<char>
    decreases s.len(),
{
    if s.len() == 0 {
        Seq::empty()
    } else {
        xml_text(s.drop_last()) + xml_char(s.last())
    }
}

/// `s` as text inside markup or a quoted attribute.
pub open spec fn html_text(s: Seq<char>) -> Seq<char>
    decreases s.len(),
{
    if s.len() == 0 {
        Seq::empty()
    } else {
        html_text(s.drop_last()) + html_char(s.last())
    }
}

fn push_xml_char(out: &mut String, c: char)
    ensures
        final(out)@ == old(out)@ + xml_char(c),
{
    if c == '&' {
        out.append("&amp;");
    } else if c == '<' {
        out.append("&lt;");
    } else if c == '>' {
        out.append("&gt;");
    } else {
        let ghost before = out@;
        out.push(c);
        assert(out@ =~= before + seq![c]);
    }
}

/// `value` as text inside markup.
pub fn escape_xml_text(value: &str) -> (r: String)
    ensures
        r@ == xml_text(value@),
{
    let chars = chars_of(value);
    let mut out = "".to_string();
    proof {
        reveal_strlit("");
        assert(out@ =~= xml_text(value@.take(0)));
    }
    let mut i: usize = 0;
    while i < chars.len()
        invariant
            i <= chars@.len(),
            chars@ == value@,
            out@ == xml_text(value@.take(i as int)),
        decreases chars@.len() - i,
    {
        assert(value@.take(i + 1).drop_last() =~= value@.take(i as int));
        push_xml_char(&mut out, chars[i]);
        i = i + 1;
    }
    assert(value@.take(i as int) =~= value@);
    out
}

/// `value` as text inside markup or a quoted attribute.
pub fn html_escape(value: &str) -> (r: String)
    ensures
        r@ == html_text(value@),
{
    let chars = chars_of(value);
    let mut out = "".to_string();
    proof {
        reveal_strlit("");
        assert(out@ =~= html_text(value@.take(0)));
    }
    let mut i: usize = 0;
    while i < chars.len()
        invariant
            i <= chars@.len(),
            chars@ == value@,
            out@ == html_text(value@.take(i as int)),
        decreases chars@.len() - i,
    {
        assert(value@.take(i + 1).drop_last() =~= value@.take(i as int));
        if chars[i] == '"' {
            out.append("&quot;");
        } else {
            push_xml_char(&mut out, chars[i]);
        }
        i = i + 1;
    }
    assert(value@.take(i as int) =~= value@);
    out
}

/// Escaped text opens and closes no element and ends no attribute.
pub proof fn law_escaped_text_is_inert(s: Seq<char>)
    ensures
        forall|i: int|
            0 <= i < html_text(s).len() ==> #[trigger] html_text(s)[i] != '<' && html_text(s)[i]
                != '>' && html_text(s)[i] != '"',
    decreases s.len(),
{
    if s.len() > 0 {
        law_escaped_text_is_inert(s.drop_last());
        reveal_strlit("&quot;");
        reveal_strlit("&amp;");
        reveal_strlit("&lt;");
        reveal_strlit("&gt;");
        let head = html_text(s.drop_last());
        assert forall|i: int| 0 <= i < html_text(s).len() implies #[trigger] html_text(s)[i] != '<'
            && html_text(s)[i] != '>' && html_text(s)[i] != '"' by {
            if i < head.len() {
                assert(html_text(s)[i] == head[i]);
            } else {
                assert(html_text(s)[i] == html_char(s.last())[i - head.len()]);
            }
        }
    }
}

/// Text is escaped character by character, and what needs no escape stays.
pub proof fn law_escapes_go_character_by_character(s: Seq<char>, c: char)
    ensures
        html_text(s.push(c)) == html_text(s) + (if c == '&' {
            "&amp;"@
        } else if c == '<' {
            "&lt;"@
        } else if c == '>' {
            "&gt;"@
        } else if c == '"' {
            "&quot;"@
        } else {
            seq![c]
        }),
        xml_text(s.push(c)) == xml_text(s) + (if c == '&' {
            "&amp;"@
        } else if c == '<' {
            "&lt;"@
        } else if c == '>' {
            "&gt;"@
        } else {
            seq![c]
        }),
        html_text(Seq::empty()).len() == 0,
        xml_text(Seq::empty()).len() == 0,
{
    assert(s.push(c).drop_last() =~= s);
}

/// Text without special characters is written as it is.
pub proof fn law_plain_text_stays(s: Seq<char>)
    requires
        forall|i: int|
            0 <= i < s.len() ==> #[trigger] s[i] != '&' && s[i] != '<' && s[i] != '>' && s[i] != '"',
    ensures
        html_text(s) == s,
        xml_text(s) == s,
    decreases s.len(),
{
    if s.len() > 0 {
        let t = s.drop_last();
        assert forall|i: int| 0 <= i < t.len() implies #[trigger] t[i] != '&' && t[i] != '<' && t[i]
            != '>' && t[i] != '"' by {
            assert(t[i] == s[i]);
        }
        law_plain_text_stays(t);
        assert(s.last() == s[s.len() - 1]);
        assert(html_text(s) =~= s);
        assert(xml_text(s) =~= s);
    }
}

} // verus!
