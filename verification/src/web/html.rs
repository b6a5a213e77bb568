//! Writing text into HTML pages and addresses: escaping, percent-encoding,
//! and filling the page template.
use vstd::prelude::*;
use crate::text::{push_char, replace, replace_all};

verus! {

/// What `urlencoding::encode` makes of a text: every UTF-8 byte but the
/// ASCII letters, digits and `-`, `.`, `_`, `~` percent-encoded.
pub uninterp spec fn url_encoded(s: Seq<char>) -> Seq<char>;

/// Percent-encodes `s` with `urlencoding::encode`; the result is
/// [`url_encoded`] of the text.
#[verifier::external_body]
pub(crate) fn url_encode(s: &str) -> (out: String)
    ensures
        out@ == url_encoded(s@),
{
    urlencoding::encode(s).into_owned()
}

/// What a character is written as in HTML text.
pub open spec fn escaped_char(c: char) -> Seq<char> {
    if c == '&' {
        "&amp;"@
    } else if c == '<' {
        "&lt;"@
    } else if c == '>' {
        "&gt;"@
    } else if c == '"' {
        "&quot;"@
    } else if c == '\'' {
        "&#39;"@
    } else {
        seq![c]
    }
}

/// A text written as HTML text: `&`, `<`, `>`, `"` and `'` as entities, the
/// rest as it is.
pub open spec fn escaped_html(s: Seq<char>) -> Seq<char>
    decreases s.len(),
{
    if s.len() == 0 {
        Seq::empty()
    } else {
        escaped_html(s.drop_last()) + escaped_char(s.last())
    }
}

/// Escaped text holds no character that could open or close a tag or an
/// attribute value: no `<`, `>`, `"` or `'`.
pub proof fn lemma_escaped_html_is_inert(s: Seq<char>)
    ensures
        forall|i: int| 0 <= i < escaped_html(s).len() ==> {
            let c = #[trigger] escaped_html(s)[i];
            c != '<' && c != '>' && c != '"' && c != '\''
        },
    decreases s.len(),
{
    reveal_strlit("&amp;");
    reveal_strlit("&lt;");
    reveal_strlit("&gt;");
    reveal_strlit("&quot;");
    reveal_strlit("&#39;");
    if s.len() > 0 {
        lemma_escaped_html_is_inert(s.drop_last());
        let pre = escaped_html(s.drop_last());
        let tail = escaped_char(s.last());
        assert(escaped_html(s) == pre + tail);
        assert forall|i: int| 0 <= i < escaped_html(s).len() implies {
            let c = #[trigger] escaped_html(s)[i];
            c != '<' && c != '>' && c != '"' && c != '\''
        } by {
            if i < pre.len() {
                assert(escaped_html(s)[i] == pre[i]);
            } else {
                assert(escaped_html(s)[i] == tail[i - pre.len()]);
            }
        }
    }
}

/// Writes `s` as HTML text (see [`escaped_html`]).
pub fn escape_html(s: &str) -> (out: String)
    ensures
        out@ == escaped_html(s@),
{
    proof {
        reveal_strlit("&amp;");
        reveal_strlit("&lt;");
        reveal_strlit("&gt;");
        reveal_strlit("&quot;");
        reveal_strlit("&#39;");
    }
    let mut out = String::new();
    let n = s.unicode_len();
    let mut i: usize = 0;
    assert(s@.take(0) =~= Seq::<char>::empty());
    while i < n
        invariant
            i <= n,
            n == s@.len(),
            out@ == escaped_html(s@.take(i as int)),
        decreases n - i,
    {
        let c = s.get_char(i);
        assert(s@.take(i + 1).drop_last() =~= s@.take(i as int));
        assert(s@.take(i + 1).last() == c);
        let ghost before = out@;
        if c == '&' {
            out.append("&amp;");
        } else if c == '<' {
            out.append("&lt;");
        } else if c == '>' {
            out.append("&gt;");
        } else if c == '"' {
            out.append("&quot;");
        } else if c == '\'' {
            out.append("&#39;");
        } else {
            push_char(&mut out, c);
        }
        assert(out@ =~= before + escaped_char(c));
        i += 1;
    }
    assert(s@.take(n as int) =~= s@);
    out
}

/// The page template with `{% CONTENT %}` replaced by `content`.
pub fn fill_template(template: &str, content: &str) -> (page: String)
    ensures
        page@ == replace_all(template@, "{% CONTENT %}"@, content@),
{
    proof {
        reveal_strlit("{% CONTENT %}");
    }
    replace(template, "{% CONTENT %}", content)
}

} // verus!
