//! Texts inside XML and HTML.

use vstd::prelude::*;
use vstd::string::*;
use crate::text::to_chars;

verus! {

/// How a character is written in XML.
pub open spec fn xml_of(c: char) -> Seq<char> {
    if c == '&' {
        "&amp;"@
    } else if c == '<' {
        "&lt;"@
    } else if c == '>' {
        "&gt;"@
    } else if c == '"' {
        "&quot;"@
    } else if c == '\'' {
        "&apos;"@
    } else {
        seq![c]
    }
}

/// How a text is written in XML.
pub open spec fn xml_escaped(s: Seq<char>) -> Seq<char>
    decreases s.len(),
{
    if s.len() == 0 {
        seq![]
    } else {
        xml_of(s[0]) + xml_escaped(s.drop_first())
    }
}

/// How a character is written in HTML.
pub open spec fn html_of(c: char) -> Seq<char> {
    if c == '\'' {
        "&#39;"@
    } else {
        xml_of(c)
    }
}

/// How a text is written in HTML.
pub open spec fn html_escaped(s: Seq<char>) -> Seq<char>
    decreases s.len(),
{
    if s.len() == 0 {
        seq![]
    } else {
        html_of(s[0]) + html_escaped(s.drop_first())
    }
}

fn push_xml(out: &mut String, c: char)
    ensures
        final(out)@ == old(out)@ + xml_of(c),
{
    if c == '&' {
        out.append("&amp;");
    } else if c == '<' {
        out.append("&lt;");
    } else if c == '>' {
        out.append("&gt;");
    } else if c == '"' {
        out.append("&quot;");
    } else if c == '\'' {
        out.append("&apos;");
    } else {
        out.push(c);
        proof {
            assert(out@ =~= old(out)@ + seq![c]);
        }
    }
}

/// Writes a text in XML.
pub fn xml_escape(value: &str) -> (result: String)
    ensures
        result@ == xml_escaped(value@),
{
    let chars = to_chars(value);
    let mut out = String::new();
    let mut i: usize = 0;
    proof {
        assert(chars@.skip(0) =~= value@);
        assert(out@ + xml_escaped(chars@) =~= xml_escaped(chars@));
    }
    while i < chars.len()
        invariant
            i <= chars.len(),
            chars@ == value@,
            out@ + xml_escaped(chars@.skip(i as int)) == xml_escaped(value@),
        decreases chars.len() - i,
    {
        let ghost before = out@;
        push_xml(&mut out, chars[i]);
        proof {
            let rest = chars@.skip(i as int);
            assert(rest.drop_first() =~= chars@.skip(i + 1));
            assert(before + (xml_of(rest[0]) + xml_escaped(rest.drop_first())) =~= before + xml_of(
                rest[0],
            ) + xml_escaped(rest.drop_first()));
        }
        i += 1;
    }
    proof {
        assert(chars@.skip(i as int) =~= seq![]);
        assert(out@ + Seq::<char>::empty() =~= out@);
    }
    out
}

/// Writes a text in HTML.
pub fn html_escape(value: &str) -> (result: String)
    ensures
        result@ == html_escaped(value@),
{
    let chars = to_chars(value);
    let mut out = String::new();
    let mut i: usize = 0;
    proof {
        assert(chars@.skip(0) =~= value@);
        assert(out@ + html_escaped(chars@) =~= html_escaped(chars@));
    }
    while i < chars.len()
        invariant
            i <= chars.len(),
            chars@ == value@,
            out@ + html_escaped(chars@.skip(i as int)) == html_escaped(value@),
        decreases chars.len() - i,
    {
        let ghost before = out@;
        if chars[i] == '\'' {
            out.append("&#39;");
        } else {
            push_xml(&mut out, chars[i]);
        }
        proof {
            let rest = chars@.skip(i as int);
            assert(rest.drop_first() =~= chars@.skip(i + 1));
            assert(before + (html_of(rest[0]) + html_escaped(rest.drop_first())) =~= before
                + html_of(rest[0]) + html_escaped(rest.drop_first()));
        }
        i += 1;
    }
    proof {
        assert(chars@.skip(i as int) =~= seq![]);
        assert(out@ + Seq::<char>::empty() =~= out@);
    }
    out
}

/// A character that opens, closes or quotes markup.
pub open spec fn is_markup(c: char) -> bool {
    c == '<' || c == '>' || c == '"' || c == '\''
}

proof fn reveal_names()
    ensures
        "&amp;"@ =~= seq!['&', 'a', 'm', 'p', ';'],
        "&lt;"@ =~= seq!['&', 'l', 't', ';'],
        "&gt;"@ =~= seq!['&', 'g', 't', ';'],
        "&quot;"@ =~= seq!['&', 'q', 'u', 'o', 't', ';'],
        "&apos;"@ =~= seq!['&', 'a', 'p', 'o', 's', ';'],
        "&#39;"@ =~= seq!['&', '#', '3', '9', ';'],
{
    reveal_strlit("&amp;");
    reveal_strlit("&lt;");
    reveal_strlit("&gt;");
    reveal_strlit("&quot;");
    reveal_strlit("&apos;");
    reveal_strlit("&#39;");
}

/// A text written in XML or HTML holds nothing that opens, closes or quotes markup.
pub proof fn law_escaped_texts_hold_no_markup(s: Seq<char>)
    ensures
        forall|i: int| 0 <= i < xml_escaped(s).len() ==> !is_markup(#[trigger] xml_escaped(s)[i]),
        forall|i: int| 0 <= i < html_escaped(s).len() ==> !is_markup(#[trigger] html_escaped(s)[i]),
    decreases s.len(),
{
    if s.len() > 0 {
        reveal_names();
        law_escaped_texts_hold_no_markup(s.drop_first());
        assert forall|i: int| 0 <= i < xml_escaped(s).len() implies !is_markup(
            #[trigger] xml_escaped(s)[i],
        ) by {
            let n = xml_of(s[0]).len();
            if i >= n {
                assert(!is_markup(xml_escaped(s.drop_first())[i - n]));
            }
        }
        assert forall|i: int| 0 <= i < html_escaped(s).len() implies !is_markup(
            #[trigger] html_escaped(s)[i],
        ) by {
            let n = html_of(s[0]).len();
            if i >= n {
                assert(!is_markup(html_escaped(s.drop_first())[i - n]));
            }
        }
    }
}

/// Two texts that are written the same in XML are the same text.
pub proof fn law_xml_keeps_texts_apart(a: Seq<char>, b: Seq<char>)
    requires
        xml_escaped(a) == xml_escaped(b),
    ensures
        a == b,
    decreases a.len(),
{
    reveal_names();
    if a.len() > 0 && b.len() > 0 {
        let x = xml_escaped(a);
        let na = xml_of(a[0]).len() as int;
        let nb = xml_of(b[0]).len() as int;
        assert(forall|i: int| 0 <= i < na ==> x[i] == #[trigger] xml_of(a[0])[i]);
        assert(forall|i: int| 0 <= i < nb ==> x[i] == #[trigger] xml_of(b[0])[i]);
        assert(xml_of(a[0])[0] == xml_of(b[0])[0]);
        if xml_of(a[0])[0] == '&' {
            assert(xml_of(a[0])[1] == xml_of(b[0])[1]);
            assert(xml_of(a[0])[2] == xml_of(b[0])[2]);
        }
        assert(a[0] == b[0]);
        assert(x.skip(na) =~= xml_escaped(a.drop_first()));
        assert(x.skip(nb) =~= xml_escaped(b.drop_first()));
        law_xml_keeps_texts_apart(a.drop_first(), b.drop_first());
        assert(a =~= seq![a[0]] + a.drop_first());
        assert(b =~= seq![b[0]] + b.drop_first());
    } else if a.len() > 0 {
        assert(xml_escaped(a).len() > 0);
    } else if b.len() > 0 {
        assert(xml_escaped(b).len() > 0);
    } else {
        assert(a =~= b);
    }
}

/// Two texts that are written the same in HTML are the same text.
pub proof fn law_html_keeps_texts_apart(a: Seq<char>, b: Seq<char>)
    requires
        html_escaped(a) == html_escaped(b),
    ensures
        a == b,
    decreases a.len(),
{
    reveal_names();
    if a.len() > 0 && b.len() > 0 {
        let x = html_escaped(a);
        let na = html_of(a[0]).len() as int;
        let nb = html_of(b[0]).len() as int;
        assert(forall|i: int| 0 <= i < na ==> x[i] == #[trigger] html_of(a[0])[i]);
        assert(forall|i: int| 0 <= i < nb ==> x[i] == #[trigger] html_of(b[0])[i]);
        assert(html_of(a[0])[0] == html_of(b[0])[0]);
        if html_of(a[0])[0] == '&' {
            assert(html_of(a[0])[1] == html_of(b[0])[1]);
        }
        assert(a[0] == b[0]);
        assert(x.skip(na) =~= html_escaped(a.drop_first()));
        assert(x.skip(nb) =~= html_escaped(b.drop_first()));
        law_html_keeps_texts_apart(a.drop_first(), b.drop_first());
        assert(a =~= seq![a[0]] + a.drop_first());
        assert(b =~= seq![b[0]] + b.drop_first());
    } else if a.len() > 0 {
        assert(html_escaped(a).len() > 0);
    } else if b.len() > 0 {
        assert(html_escaped(b).len() > 0);
    } else {
        assert(a =~= b);
    }
}

} // verus!
