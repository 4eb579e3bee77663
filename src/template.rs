//! Composition of a post page: the template's placeholders replaced by a
//! dated title header and the rendered body.
use vstd::prelude::*;
use crate::date::Date;
use crate::markdown::{html_of, md_to_html};
use crate::text::{
    lemma_replace_absent, lemma_replace_both, occurs_at,
    chars_of, push_all, push_signed_decimal, push_two_digits, replace_all, replace_all_exec,
    signed_decimal, string_of, two_digits,
};

verus! {

/// The placeholder that the dated title header replaces.
pub const TITLE_TOKEN: &'static str = "[selfblog_main_title]";

/// The placeholder that the rendered post body replaces.
pub const POST_TOKEN: &'static str = "[selfblog_post]";

/// `YYYY-MM-DD`, month and day in two digits.
pub open spec fn date_text(d: Date) -> Seq<char> {
    signed_decimal(d.year as int) + seq!['-'] + two_digits(d.month as nat) + seq!['-']
        + two_digits(d.day as nat)
}

/// `<p>YYYY-MM-DD: title</p>`.
pub open spec fn header(d: Date, title: Seq<char>) -> Seq<char> {
    "<p>"@ + date_text(d) + ": "@ + title + "</p>"@
}

/// The template with every title placeholder replaced by the header, then every
/// body placeholder replaced by the body.
pub open spec fn compose_spec(template: Seq<char>, title: Seq<char>, d: Date, body: Seq<char>) -> Seq<char> {
    replace_all(replace_all(template, TITLE_TOKEN@, header(d, title)), POST_TOKEN@, body)
}

/// Appends `YYYY-MM-DD` to `out`.
pub(crate) fn push_date(out: &mut Vec<char>, d: Date)
    ensures
        final(out)@ == old(out)@ + date_text(d),
{
    push_signed_decimal(out, d.year);
    out.push('-');
    push_two_digits(out, d.month);
    out.push('-');
    push_two_digits(out, d.day);
    assert(final(out)@ =~= old(out)@ + date_text(d));
}

pub(crate) fn header_chars(d: Date, title: &Vec<char>) -> (r: Vec<char>)
    ensures
        r@ == header(d, title@),
{
    let mut out = chars_of("<p>");
    push_date(&mut out, d);
    push_all(&mut out, &chars_of(": "));
    push_all(&mut out, title);
    push_all(&mut out, &chars_of("</p>"));
    assert(out@ =~= header(d, title@));
    out
}

/// The header line `<p>YYYY-MM-DD: title</p>`.
pub fn title_header(title: &str, date: Date) -> (r: String)
    ensures
        r@ == header(date, title@),
{
    string_of(&header_chars(date, &chars_of(title)))
}

/// Fills a template: every `[selfblog_main_title]` becomes the dated title
/// header and every `[selfblog_post]` becomes `body_html`.
pub fn compose(template: &str, title: &str, date: Date, body_html: &str) -> (r: String)
    ensures
        r@ == compose_spec(template@, title@, date, body_html@),
{
    let head = header_chars(date, &chars_of(title));
    let titled = replace_all_exec(&chars_of(template), &chars_of(TITLE_TOKEN), &head);
    string_of(&replace_all_exec(&titled, &chars_of(POST_TOKEN), &chars_of(body_html)))
}

/// Renders `markdown` and fills the template with it.
pub fn render_page(template: &str, markdown: &str, title: &str, date: Date) -> (r: String)
    ensures
        r@ == compose_spec(template@, title@, date, html_of(markdown@)),
{
    let html = md_to_html(markdown);
    compose(template, title, date, html.as_str())
}

/// A ready page as it is published: any title placeholder still in it becomes
/// the dated title header.
pub fn publish_page(ready_page: &str, title: &str, date: Date) -> (r: String)
    ensures
        r@ == replace_all(ready_page@, TITLE_TOKEN@, header(date, title@)),
{
    let head = header_chars(date, &chars_of(title));
    string_of(&replace_all_exec(&chars_of(ready_page), &chars_of(TITLE_TOKEN), &head))
}

/// Composing is repeatable: two pages composed from the same template, title,
/// date and body are the same text.
pub proof fn lemma_compose_repeatable(
    template: Seq<char>,
    title: Seq<char>,
    d: Date,
    body: Seq<char>,
    first: Seq<char>,
    second: Seq<char>,
)
    requires
        first == compose_spec(template, title, d, body),
        second == compose_spec(template, title, d, body),
    ensures
        first == second,
{
}

/// A template that holds neither placeholder passes through unchanged.
pub proof fn lemma_compose_without_tokens(template: Seq<char>, title: Seq<char>, d: Date, body: Seq<char>)
    requires
        forall|i: int| 0 <= i < template.len() ==> !occurs_at(template, i, TITLE_TOKEN@),
        forall|i: int| 0 <= i < template.len() ==> !occurs_at(template, i, POST_TOKEN@),
    ensures
        compose_spec(template, title, d, body) == template,
{
    lemma_replace_absent(template, TITLE_TOKEN@, header(d, title));
    lemma_replace_absent(template, POST_TOKEN@, body);
}

/// A template without the title placeholder and with the body placeholder
/// twice, at the two places where it starts (no other occurrence starts inside
/// `a` or `b`), gets the body at both places.
pub proof fn lemma_compose_body_twice(
    a: Seq<char>,
    b: Seq<char>,
    c: Seq<char>,
    title: Seq<char>,
    d: Date,
    body: Seq<char>,
)
    requires
        forall|i: int|
            0 <= i < (a + POST_TOKEN@ + b + POST_TOKEN@ + c).len() ==> !occurs_at(
                a + POST_TOKEN@ + b + POST_TOKEN@ + c,
                i,
                TITLE_TOKEN@,
            ),
        forall|i: int|
            0 <= i < a.len() ==> !occurs_at(a + POST_TOKEN@ + b + POST_TOKEN@ + c, i, POST_TOKEN@),
        forall|i: int| 0 <= i < b.len() ==> !occurs_at(b + POST_TOKEN@ + c, i, POST_TOKEN@),
    ensures
        compose_spec(a + POST_TOKEN@ + b + POST_TOKEN@ + c, title, d, body) == a + body + b + body
            + replace_all(c, POST_TOKEN@, body),
{
    let t = a + POST_TOKEN@ + b + POST_TOKEN@ + c;
    reveal_strlit("[selfblog_post]");
    lemma_replace_absent(t, TITLE_TOKEN@, header(d, title));
    lemma_replace_both(a, b, c, POST_TOKEN@, body);
}

} // verus!
