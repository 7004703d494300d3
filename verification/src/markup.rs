//! Text in HTML.

use vstd::prelude::*;

use crate::text::{begins_with, chars_of};

verus! {

/// The style sheet of the admin pages.
pub const STYLE: &'static str = r#"
body{margin:0;background:#f6f7f9;color:#17202a;font:15px/1.5 -apple-system,BlinkMacSystemFont,"Segoe UI",sans-serif}
main{max-width:1180px;margin:0 auto;padding:28px}
.login{max-width:420px;padding-top:12vh}
header{display:flex;align-items:center;justify-content:space-between;gap:16px;margin-bottom:20px}
h1{font-size:28px;margin:0 0 4px}
h2{font-size:18px;margin:0 0 14px}
p{margin:0;color:#5e6a76}
section,form.login{background:#fff;border:1px solid #dfe4ea;border-radius:8px;padding:18px;margin-bottom:18px}
.login form,.grid form{background:#fff;border:1px solid #dfe4ea;border-radius:8px;padding:18px}
.login-tools{display:flex;justify-content:flex-end;margin-bottom:14px}
.header-actions{display:flex;align-items:center;gap:8px}
.header-actions form{margin:0}
.grid{display:grid;grid-template-columns:repeat(auto-fit,minmax(260px,1fr));gap:16px;background:transparent;border:0;padding:0}
label{display:grid;gap:8px;margin-bottom:14px;font-weight:600}
input{box-sizing:border-box;width:100%;border:1px solid #c9d1d9;border-radius:6px;padding:10px;font:inherit}
a.button,button{border:0;border-radius:6px;background:#1f6feb;color:#fff;padding:9px 14px;font:inherit;font-weight:700;cursor:pointer;text-decoration:none;display:inline-flex;align-items:center;justify-content:center}
a.button.secondary,button.secondary{background:#eef2f6;color:#17202a}
button.danger{background:#c93c37}
.table-wrap{overflow:auto}
table{border-collapse:collapse;width:100%;min-width:900px}
th,td{border-bottom:1px solid #e7ebef;padding:10px;text-align:left;vertical-align:top}
th{font-size:13px;color:#5e6a76;background:#fbfcfd}
.actions{display:flex;gap:8px;white-space:nowrap}
.actions form{border:0;padding:0;margin:0;background:transparent}
.muted{color:#6b7785}
.error{color:#b42318;margin-bottom:14px}
.notice{background:#e8f3ff;border:1px solid #b9d9ff;border-radius:6px;color:#174a7c;margin-bottom:16px;padding:10px}
@media (max-width:700px){main{padding:18px}header{align-items:flex-start;flex-direction:column}.header-actions{width:100%;justify-content:space-between}.actions{flex-direction:column}}
"#;

/// What stands in HTML for a character of a text.
pub open spec fn entity(c: char) -> Seq<char> {
    if c == '&' {
        "&amp;"@
    } else if c == '<' {
        "&lt;"@
    } else if c == '>' {
        "&gt;"@
    } else if c == '"' {
        "&quot;"@
    } else if c == '\'' {
        "&#39;"@
    } else {
        seq![c]
    }
}

/// What stands in HTML for a text: what stands for each of its characters.
pub open spec fn escaped(s: Seq<char>) -> Seq<char>
    decreases s.len(),
{
    if s.len() == 0 {
        Seq::empty()
    } else {
        escaped(s.drop_last()) + entity(s.last())
    }
}

/// The style sheet of the admin pages.
#[verifier::allow_in_spec]
pub fn admin_css() -> &'static str
    returns
        STYLE,
{
    STYLE
}

/// What stands in HTML for a text.
pub fn escape_html(value: &str) -> (r: String)
    ensures
        r@ == escaped(value@),
{
    let chars = chars_of(value);
    let mut out = String::new();
    let mut i: usize = 0;
    assert(chars@.take(0) == Seq::<char>::empty());
    while i < chars.len()
        invariant
            i <= chars@.len(),
            out@ == escaped(chars@.take(i as int)),
        decreases chars@.len() - i,
    {
        let c = chars[i];
        assert(chars@.take(i + 1).drop_last() == chars@.take(i as int));
        if c == '&' {
            out.append("&amp;");
        } else if c == '<' {
            out.append("&lt;");
        } else if c == '>' {
            out.append("&gt;");
        } else if c == '"' {
            out.append("&quot;");
        } else if c == '\'' {
            out.append("&#39;");
        } else {
            out.push(c);
        }
        i = i + 1;
    }
    assert(chars@.take(chars@.len() as int) == chars@);
    out
}

/// A text with every occurrence of a character replaced.
pub open spec fn replaced(s: Seq<char>, c: char, by: Seq<char>) -> Seq<char>
    decreases s.len(),
{
    if s.len() == 0 {
        Seq::empty()
    } else {
        replaced(s.drop_last(), c, by) + if s.last() == c {
            by
        } else {
            seq![s.last()]
        }
    }
}

/// The text that a text in HTML stands for: each entity is the character that it
/// stands for, and every other character is itself.
pub open spec fn unescaped(s: Seq<char>) -> Seq<char>
    decreases s.len(),
{
    if s.len() == 0 {
        Seq::empty()
    } else if begins_with(s, "&amp;"@) && s.len() >= 5 {
        seq!['&'] + unescaped(s.skip(5))
    } else if begins_with(s, "&lt;"@) && s.len() >= 4 {
        seq!['<'] + unescaped(s.skip(4))
    } else if begins_with(s, "&gt;"@) && s.len() >= 4 {
        seq!['>'] + unescaped(s.skip(4))
    } else if begins_with(s, "&quot;"@) && s.len() >= 6 {
        seq!['"'] + unescaped(s.skip(6))
    } else if begins_with(s, "&#39;"@) && s.len() >= 5 {
        seq!['\''] + unescaped(s.skip(5))
    } else {
        seq![s.first()] + unescaped(s.drop_first())
    }
}

proof fn reveal_entities()
    ensures
        "&amp;"@ == seq!['&', 'a', 'm', 'p', ';'],
        "&lt;"@ == seq!['&', 'l', 't', ';'],
        "&gt;"@ == seq!['&', 'g', 't', ';'],
        "&quot;"@ == seq!['&', 'q', 'u', 'o', 't', ';'],
        "&#39;"@ == seq!['&', '#', '3', '9', ';'],
{
    reveal_strlit("&amp;");
    reveal_strlit("&lt;");
    reveal_strlit("&gt;");
    reveal_strlit("&quot;");
    reveal_strlit("&#39;");
    assert("&amp;"@ =~= seq!['&', 'a', 'm', 'p', ';']);
    assert("&lt;"@ =~= seq!['&', 'l', 't', ';']);
    assert("&gt;"@ =~= seq!['&', 'g', 't', ';']);
    assert("&quot;"@ =~= seq!['&', 'q', 'u', 'o', 't', ';']);
    assert("&#39;"@ =~= seq!['&', '#', '3', '9', ';']);
}

/// Escaping goes character by character: two texts one behind the other are
/// escaped one behind the other.
pub proof fn law_escaping_distributes(a: Seq<char>, b: Seq<char>)
    ensures
        escaped(a + b) == escaped(a) + escaped(b),
    decreases b.len(),
{
    if b.len() == 0 {
        assert(a + b == a);
        assert(escaped(a) + escaped(b) == escaped(a));
    } else {
        assert((a + b).drop_last() == a + b.drop_last());
        law_escaping_distributes(a, b.drop_last());
    }
}

/// Nothing in an escaped text opens or closes a tag or an attribute.
pub proof fn law_escaped_text_is_inert(s: Seq<char>)
    ensures
        forall|i: int|
            0 <= i < escaped(s).len() ==> {
                let c = #[trigger] escaped(s)[i];
                c != '<' && c != '>' && c != '"' && c != '\''
            },
    decreases s.len(),
{
    if s.len() > 0 {
        law_escaped_text_is_inert(s.drop_last());
        reveal_entities();
        let head = escaped(s.drop_last());
        let tail = entity(s.last());
        assert forall|i: int| 0 <= i < escaped(s).len() implies {
            let c = #[trigger] escaped(s)[i];
            c != '<' && c != '>' && c != '"' && c != '\''
        } by {
            if i < head.len() {
                assert(escaped(s)[i] == head[i]);
            } else {
                assert(escaped(s)[i] == tail[i - head.len()]);
            }
        }
    }
}

proof fn lemma_begins_otherwise(s: Seq<char>, prefix: Seq<char>, i: int)
    requires
        0 <= i < prefix.len(),
        i < s.len(),
        s[i] != prefix[i],
    ensures
        !begins_with(s, prefix),
{
    if prefix.len() <= s.len() {
        assert(s.take(prefix.len() as int)[i] == s[i]);
    }
}

/// Escaping loses nothing: what was escaped can be read back.
pub proof fn law_escaped_text_reads_back(s: Seq<char>)
    ensures
        unescaped(escaped(s)) == s,
    decreases s.len(),
{
    if s.len() > 0 {
        let c = s.first();
        let rest = s.drop_first();
        law_escaped_text_reads_back(rest);
        assert(s == seq![c] + rest);
        law_escaping_distributes(seq![c], rest);
        assert(seq![c].drop_last() == Seq::<char>::empty());
        assert(escaped(Seq::<char>::empty()) + entity(c) == entity(c));
        assert(escaped(seq![c]) == entity(c));
        reveal_entities();
        let e = escaped(s);
        let n = entity(c).len() as int;
        assert(e.skip(n) == escaped(rest));
        assert(e.take(n) == entity(c));
        if c == '&' {
            assert(begins_with(e, "&amp;"@));
        } else if c == '<' {
            assert(e[1] == 'l');
            lemma_begins_otherwise(e, "&amp;"@, 1);
            assert(begins_with(e, "&lt;"@));
        } else if c == '>' {
            assert(e[1] == 'g');
            lemma_begins_otherwise(e, "&amp;"@, 1);
            lemma_begins_otherwise(e, "&lt;"@, 1);
            assert(begins_with(e, "&gt;"@));
        } else if c == '"' {
            assert(e[1] == 'q');
            lemma_begins_otherwise(e, "&amp;"@, 1);
            lemma_begins_otherwise(e, "&lt;"@, 1);
            lemma_begins_otherwise(e, "&gt;"@, 1);
            assert(begins_with(e, "&quot;"@));
        } else if c == '\'' {
            assert(e[1] == '#');
            lemma_begins_otherwise(e, "&amp;"@, 1);
            lemma_begins_otherwise(e, "&lt;"@, 1);
            lemma_begins_otherwise(e, "&gt;"@, 1);
            lemma_begins_otherwise(e, "&quot;"@, 1);
            assert(begins_with(e, "&#39;"@));
        } else {
            assert(e[0] == c);
            lemma_begins_otherwise(e, "&amp;"@, 0);
            lemma_begins_otherwise(e, "&lt;"@, 0);
            lemma_begins_otherwise(e, "&gt;"@, 0);
            lemma_begins_otherwise(e, "&quot;"@, 0);
            lemma_begins_otherwise(e, "&#39;"@, 0);
            assert(e.drop_first() == e.skip(1));
        }
        assert(unescaped(e) == s);
    }
}

proof fn lemma_replacing_distributes(a: Seq<char>, b: Seq<char>, c: char, by: Seq<char>)
    ensures
        replaced(a + b, c, by) == replaced(a, c, by) + replaced(b, c, by),
    decreases b.len(),
{
    if b.len() == 0 {
        assert(a + b == a);
        assert(replaced(a, c, by) + replaced(b, c, by) == replaced(a, c, by));
    } else {
        assert((a + b).drop_last() == a + b.drop_last());
        lemma_replacing_distributes(a, b.drop_last(), c, by);
    }
}

proof fn lemma_nothing_to_replace(s: Seq<char>, c: char, by: Seq<char>)
    requires
        forall|i: int| 0 <= i < s.len() ==> s[i] != c,
    ensures
        replaced(s, c, by) == s,
    decreases s.len(),
{
    if s.len() > 0 {
        lemma_nothing_to_replace(s.drop_last(), c, by);
        assert(s.drop_last() + seq![s.last()] == s);
    }
}

/// The five replacements of escaping, one after the other, the ampersand first.
pub open spec fn replaced_in_turn(s: Seq<char>) -> Seq<char> {
    let no_ampersand = replaced(s, '&', "&amp;"@);
    let no_less = replaced(no_ampersand, '<', "&lt;"@);
    let no_greater = replaced(no_less, '>', "&gt;"@);
    let no_quote = replaced(no_greater, '"', "&quot;"@);
    replaced(no_quote, '\'', "&#39;"@)
}

proof fn lemma_turns_distribute(a: Seq<char>, b: Seq<char>)
    ensures
        replaced_in_turn(a + b) == replaced_in_turn(a) + replaced_in_turn(b),
{
    lemma_replacing_distributes(a, b, '&', "&amp;"@);
    let a1 = replaced(a, '&', "&amp;"@);
    let b1 = replaced(b, '&', "&amp;"@);
    lemma_replacing_distributes(a1, b1, '<', "&lt;"@);
    let a2 = replaced(a1, '<', "&lt;"@);
    let b2 = replaced(b1, '<', "&lt;"@);
    lemma_replacing_distributes(a2, b2, '>', "&gt;"@);
    let a3 = replaced(a2, '>', "&gt;"@);
    let b3 = replaced(b2, '>', "&gt;"@);
    lemma_replacing_distributes(a3, b3, '"', "&quot;"@);
    let a4 = replaced(a3, '"', "&quot;"@);
    let b4 = replaced(b3, '"', "&quot;"@);
    lemma_replacing_distributes(a4, b4, '\'', "&#39;"@);
}

proof fn lemma_single_replaced(s: Seq<char>, c: char, by: Seq<char>)
    requires
        s == seq![c],
    ensures
        replaced(s, c, by) == by,
{
    assert(s.drop_last() == Seq::<char>::empty());
    assert(Seq::<char>::empty() + by == by);
    assert(replaced(s.drop_last(), c, by) == Seq::<char>::empty());
}

proof fn lemma_turns_of_one(c: char)
    ensures
        replaced_in_turn(seq![c]) == entity(c),
{
    reveal_entities();
    let s = seq![c];
    let amp = "&amp;"@;
    let lt = "&lt;"@;
    let gt = "&gt;"@;
    let quot = "&quot;"@;
    let apos = "&#39;"@;
    if c == '&' {
        lemma_single_replaced(s, '&', amp);
        lemma_nothing_to_replace(amp, '<', lt);
        lemma_nothing_to_replace(amp, '>', gt);
        lemma_nothing_to_replace(amp, '"', quot);
        lemma_nothing_to_replace(amp, '\'', apos);
    } else {
        lemma_nothing_to_replace(s, '&', amp);
        if c == '<' {
            lemma_single_replaced(s, '<', lt);
            lemma_nothing_to_replace(lt, '>', gt);
            lemma_nothing_to_replace(lt, '"', quot);
            lemma_nothing_to_replace(lt, '\'', apos);
        } else {
            lemma_nothing_to_replace(s, '<', lt);
            if c == '>' {
                lemma_single_replaced(s, '>', gt);
                lemma_nothing_to_replace(gt, '"', quot);
                lemma_nothing_to_replace(gt, '\'', apos);
            } else {
                lemma_nothing_to_replace(s, '>', gt);
                if c == '"' {
                    lemma_single_replaced(s, '"', quot);
                    lemma_nothing_to_replace(quot, '\'', apos);
                } else {
                    lemma_nothing_to_replace(s, '"', quot);
                    if c == '\'' {
                        lemma_single_replaced(s, '\'', apos);
                    } else {
                        lemma_nothing_to_replace(s, '\'', apos);
                    }
                }
            }
        }
    }
}

/// Escaping is the same as replacing the five characters one after the other,
/// the ampersand first.
pub proof fn law_escaping_is_replacing_in_turn(s: Seq<char>)
    ensures
        replaced_in_turn(s) == escaped(s),
    decreases s.len(),
{
    if s.len() > 0 {
        law_escaping_is_replacing_in_turn(s.drop_last());
        assert(s == s.drop_last() + seq![s.last()]);
        lemma_turns_distribute(s.drop_last(), seq![s.last()]);
        lemma_turns_of_one(s.last());
    }
}

/// The style sheet of the admin pages, word for word.
pub proof fn law_style_is_word_for_word()
    ensures
        admin_css()@ == r#"
body{margin:0;background:#f6f7f9;color:#17202a;font:15px/1.5 -apple-system,BlinkMacSystemFont,"Segoe UI",sans-serif}
main{max-width:1180px;margin:0 auto;padding:28px}
.login{max-width:420px;padding-top:12vh}
header{display:flex;align-items:center;justify-content:space-between;gap:16px;margin-bottom:20px}
h1{font-size:28px;margin:0 0 4px}
h2{font-size:18px;margin:0 0 14px}
p{margin:0;color:#5e6a76}
section,form.login{background:#fff;border:1px solid #dfe4ea;border-radius:8px;padding:18px;margin-bottom:18px}
.login form,.grid form{background:#fff;border:1px solid #dfe4ea;border-radius:8px;padding:18px}
.login-tools{display:flex;justify-content:flex-end;margin-bottom:14px}
.header-actions{display:flex;align-items:center;gap:8px}
.header-actions form{margin:0}
.grid{display:grid;grid-template-columns:repeat(auto-fit,minmax(260px,1fr));gap:16px;background:transparent;border:0;padding:0}
label{display:grid;gap:8px;margin-bottom:14px;font-weight:600}
input{box-sizing:border-box;width:100%;border:1px solid #c9d1d9;border-radius:6px;padding:10px;font:inherit}
a.button,button{border:0;border-radius:6px;background:#1f6feb;color:#fff;padding:9px 14px;font:inherit;font-weight:700;cursor:pointer;text-decoration:none;display:inline-flex;align-items:center;justify-content:center}
a.button.secondary,button.secondary{background:#eef2f6;color:#17202a}
button.danger{background:#c93c37}
.table-wrap{overflow:auto}
table{border-collapse:collapse;width:100%;min-width:900px}
th,td{border-bottom:1px solid #e7ebef;padding:10px;text-align:left;vertical-align:top}
th{font-size:13px;color:#5e6a76;background:#fbfcfd}
.actions{display:flex;gap:8px;white-space:nowrap}
.actions form{border:0;padding:0;margin:0;background:transparent}
.muted{color:#6b7785}
.error{color:#b42318;margin-bottom:14px}
.notice{background:#e8f3ff;border:1px solid #b9d9ff;border-radius:6px;color:#174a7c;margin-bottom:16px;padding:10px}
@media (max-width:700px){main{padding:18px}header{align-items:flex-start;flex-direction:column}.header-actions{width:100%;justify-content:space-between}.actions{flex-direction:column}}
"#@,
{
}

} // verus!
