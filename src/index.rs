//! Patching of the site's index page: an entry block is inserted after each
//! marker line, and removed again by the line that opens it.
use vstd::prelude::*;
use crate::config::Classes;
use crate::date::Date;
use crate::lines::{
    join_lines, join_lines_exec, lemma_join_split, lemma_split_join, lemma_split_no_newline,
    lemma_split_nonempty, no_newline, split_lines, split_lines_exec, views,
};
use crate::template::{date_text, push_date};
use crate::text::{chars_of, copy_chars, decimal, digit, occurs_at, occurs_at_exec, push_all, push_decimal, starts_with, string_of};

verus! {

/// The comment line after which new entries are inserted.
pub const MARKER: &'static str = "<!-- [new_post_redirect] -->";

/// Unicode white space, as `char::is_whitespace` documents it.
pub open spec fn is_space(c: char) -> bool {
    let u = c as u32;
    (9 <= u <= 13) || u == 32 || u == 0x85 || u == 0xA0 || u == 0x1680 || (0x2000 <= u <= 0x200A)
        || u == 0x2028 || u == 0x2029 || u == 0x202F || u == 0x205F || u == 0x3000
}

/// `s` without its leading white space.
pub open spec fn trim_start(s: Seq<char>) -> Seq<char>
    decreases s.len(),
{
    if s.len() > 0 && is_space(s[0]) {
        trim_start(s.skip(1))
    } else {
        s
    }
}

/// `s` without its trailing white space.
pub open spec fn trim_end(s: Seq<char>) -> Seq<char>
    decreases s.len(),
{
    if s.len() > 0 && is_space(s.last()) {
        trim_end(s.drop_last())
    } else {
        s
    }
}

/// A line that holds the marker and white space around it.
pub open spec fn is_marker_line(l: Seq<char>) -> bool {
    trim_end(trim_start(l)) == MARKER@
}

/// How the opening line of the entry of post `id` begins: the title attribute
/// with its closing quote, so that post 1 does not match post 10.
pub open spec fn anchor_prefix(id: nat) -> Seq<char> {
    "<a title=\"post-"@ + decimal(id) + "\""@
}

/// A line that opens the entry of post `id`, after leading white space.
pub open spec fn opens_entry(l: Seq<char>, id: nat) -> bool {
    starts_with(trim_start(l), anchor_prefix(id))
}

/// The four lines of the index entry of a post.
pub open spec fn entry_block(
    id: nat,
    title: Seq<char>,
    description: Seq<char>,
    d: Date,
    title_class: Seq<char>,
    description_class: Seq<char>,
) -> Seq<Seq<char>> {
    seq![
        anchor_prefix(id) + " href=\"posts/post-"@ + decimal(id) + ".html\">"@,
        "<p class=\""@ + title_class + "\">"@ + date_text(d) + ": "@ + title + "</p>"@,
        "<p class=\""@ + description_class + "\">Description: "@ + description + "</p>"@,
        "</a>"@,
    ]
}

/// Each marker line followed by `block`; the other lines kept.
pub open spec fn insert_after_markers(ls: Seq<Seq<char>>, block: Seq<Seq<char>>) -> Seq<Seq<char>>
    decreases ls.len(),
{
    if ls.len() == 0 {
        ls
    } else if is_marker_line(ls[0]) {
        seq![ls[0]] + block + insert_after_markers(ls.skip(1), block)
    } else {
        seq![ls[0]] + insert_after_markers(ls.skip(1), block)
    }
}

/// Each line that opens the entry of post `id` dropped with the three lines
/// after it (fewer where the text ends first); the other lines kept.
pub open spec fn drop_entries(ls: Seq<Seq<char>>, id: nat) -> Seq<Seq<char>>
    decreases ls.len(),
{
    if ls.len() == 0 {
        ls
    } else if opens_entry(ls[0], id) {
        drop_entries(ls.skip(if ls.len() < 4 { ls.len() as int } else { 4 }), id)
    } else {
        seq![ls[0]] + drop_entries(ls.skip(1), id)
    }
}

/// The index with the entry of a post inserted after every marker line.
pub open spec fn insert_spec(
    index: Seq<char>,
    id: nat,
    title: Seq<char>,
    description: Seq<char>,
    d: Date,
    title_class: Seq<char>,
    description_class: Seq<char>,
) -> Seq<char> {
    join_lines(
        insert_after_markers(
            split_lines(index),
            entry_block(id, title, description, d, title_class, description_class),
        ),
    )
}

/// The index with every entry of post `id` removed.
pub open spec fn remove_spec(index: Seq<char>, id: nat) -> Seq<char> {
    join_lines(drop_entries(split_lines(index), id))
}

/// Whether `c` is white space.
fn is_space_exec(c: char) -> (r: bool)
    ensures
        r == is_space(c),
{
    let u = c as u32;
    (9 <= u && u <= 13) || u == 32 || u == 0x85 || u == 0xA0 || u == 0x1680 || (0x2000 <= u
        && u <= 0x200A) || u == 0x2028 || u == 0x2029 || u == 0x202F || u == 0x205F || u == 0x3000
}

/// The position of the first character of `l` that is not white space.
fn trim_start_index(l: &Vec<char>) -> (k: usize)
    ensures
        k <= l@.len(),
        trim_start(l@) == l@.skip(k as int),
{
    let mut k: usize = 0;
    assert(l@.skip(0) =~= l@);
    while k < l.len() && is_space_exec(l[k])
        invariant
            k <= l@.len(),
            trim_start(l@) == trim_start(l@.skip(k as int)),
        decreases l@.len() - k,
    {
        assert(l@.skip(k as int).skip(1) =~= l@.skip(k + 1));
        k = k + 1;
    }
    k
}

/// The end of `l` without its trailing white space, from position `k` on.
fn trim_end_index(l: &Vec<char>, k: usize) -> (e: usize)
    requires
        k <= l@.len(),
    ensures
        k <= e <= l@.len(),
        trim_end(l@.skip(k as int)) == l@.subrange(k as int, e as int),
{
    let mut e: usize = l.len();
    assert(l@.skip(k as int) =~= l@.subrange(k as int, e as int));
    while e > k && is_space_exec(l[e - 1])
        invariant
            k <= e <= l@.len(),
            trim_end(l@.skip(k as int)) == trim_end(l@.subrange(k as int, e as int)),
        decreases e,
    {
        assert(l@.subrange(k as int, e as int).drop_last() =~= l@.subrange(k as int, e - 1));
        e = e - 1;
    }
    e
}

fn is_marker_line_exec(l: &Vec<char>, marker: &Vec<char>) -> (r: bool)
    requires
        marker@ == MARKER@,
    ensures
        r == is_marker_line(l@),
{
    let k = trim_start_index(l);
    let e = trim_end_index(l, k);
    if e - k != marker.len() {
        return false;
    }
    let r = occurs_at_exec(l, k, marker);
    proof {
        assert(l@.skip(k as int).skip(0) =~= l@.skip(k as int));
    }
    r
}

fn opens_entry_exec(l: &Vec<char>, prefix: &Vec<char>, Ghost(id): Ghost<nat>) -> (r: bool)
    requires
        prefix@ == anchor_prefix(id),
    ensures
        r == opens_entry(l@, id),
{
    let k = trim_start_index(l);
    let r = occurs_at_exec(l, k, prefix);
    proof {
        let t = l@.skip(k as int);
        if k + prefix@.len() <= l@.len() {
            assert(t.subrange(0, prefix@.len() as int) =~= l@.subrange(k as int, k + prefix@.len()));
        }
    }
    r
}

fn anchor_prefix_exec(id: usize) -> (r: Vec<char>)
    ensures
        r@ == anchor_prefix(id as nat),
{
    let mut out = chars_of("<a title=\"post-");
    push_decimal(&mut out, id as u64);
    push_all(&mut out, &chars_of("\""));
    out
}

fn entry_block_exec(
    id: usize,
    title: &str,
    description: &str,
    date: Date,
    classes: &Classes,
) -> (r: Vec<Vec<char>>)
    ensures
        views(r@) == entry_block(
            id as nat,
            title@,
            description@,
            date,
            classes.title_text_main@,
            classes.description_text_main@,
        ),
{
    let mut anchor = anchor_prefix_exec(id);
    push_all(&mut anchor, &chars_of(" href=\"posts/post-"));
    push_decimal(&mut anchor, id as u64);
    push_all(&mut anchor, &chars_of(".html\">"));

    let mut title_line = chars_of("<p class=\"");
    push_all(&mut title_line, &chars_of(classes.title_text_main.as_str()));
    push_all(&mut title_line, &chars_of("\">"));
    push_date(&mut title_line, date);
    push_all(&mut title_line, &chars_of(": "));
    push_all(&mut title_line, &chars_of(title));
    push_all(&mut title_line, &chars_of("</p>"));

    let mut description_line = chars_of("<p class=\"");
    push_all(&mut description_line, &chars_of(classes.description_text_main.as_str()));
    push_all(&mut description_line, &chars_of("\">Description: "));
    push_all(&mut description_line, &chars_of(description));
    push_all(&mut description_line, &chars_of("</p>"));

    let block = vec![anchor, title_line, description_line, chars_of("</a>")];
    assert(views(block@) =~= entry_block(
        id as nat,
        title@,
        description@,
        date,
        classes.title_text_main@,
        classes.description_text_main@,
    ));
    block
}

/// Inserts the entry of post `post_id` (a link to its page, its date and
/// title, its description) after every marker line of the index.
pub fn insert_entry(
    index: &str,
    post_id: usize,
    title: &str,
    description: &str,
    date: Date,
    classes: &Classes,
) -> (r: String)
    ensures
        r@ == insert_spec(
            index@,
            post_id as nat,
            title@,
            description@,
            date,
            classes.title_text_main@,
            classes.description_text_main@,
        ),
{
    let block = entry_block_exec(post_id, title, description, date, classes);
    let ghost b = views(block@);
    let marker = chars_of(MARKER);
    let ls = split_lines_exec(&chars_of(index));
    let ghost all = views(ls@);
    let mut out: Vec<Vec<char>> = Vec::new();
    let mut i: usize = 0;
    assert(b.len() == 4);
    assert(block@.len() == 4);
    assert(all.skip(0) =~= all);
    assert(views(out@) + insert_after_markers(all, b) =~= insert_after_markers(all, b));
    while i < ls.len()
        invariant
            i <= ls@.len(),
            all == views(ls@),
            b == views(block@),
            block@.len() == 4,
            marker@ == MARKER@,
            views(out@) + insert_after_markers(all.skip(i as int), b) == insert_after_markers(all, b),
        decreases ls@.len() - i,
    {
        let ghost before = views(out@);
        let ghost rest = all.skip(i as int);
        assert(rest.skip(1) =~= all.skip(i + 1));
        assert(rest[0] == ls@[i as int]@);
        out.push(copy_chars(&ls[i]));
        if is_marker_line_exec(&ls[i], &marker) {
            let mut j: usize = 0;
            while j < block.len()
                invariant
                    j <= block@.len(),
                    block@.len() == 4,
                    rest.len() > 0,
                    b == views(block@),
                    views(out@) == before + seq![rest[0]] + b.take(j as int),
                decreases block@.len() - j,
            {
                let ghost prev = views(out@);
                out.push(copy_chars(&block[j]));
                assert(b[j as int] == block@[j as int]@);
                assert(views(out@) =~= prev + seq![b[j as int]]);
                assert(views(out@) =~= before + seq![rest[0]] + b.take(j + 1));
                j = j + 1;
            }
            assert(b.take(4) =~= b);
        } else {
            assert(views(out@) =~= before + seq![rest[0]]);
        }
        i = i + 1;
        assert(views(out@) + insert_after_markers(all.skip(i as int), b) =~= insert_after_markers(all, b));
    }
    assert(all.skip(i as int) =~= Seq::<Seq<char>>::empty());
    assert(views(out@) =~= insert_after_markers(all, b));
    string_of(&join_lines_exec(&out))
}

/// Removes from the index every entry of post `post_id`: each line that,
/// after leading white space, begins with `<a title="post-{post_id}"`, and the
/// three lines after it.
pub fn remove_entry(index: &str, post_id: usize) -> (r: String)
    ensures
        r@ == remove_spec(index@, post_id as nat),
{
    let prefix = anchor_prefix_exec(post_id);
    let ls = split_lines_exec(&chars_of(index));
    let ghost all = views(ls@);
    let ghost id = post_id as nat;
    let mut out: Vec<Vec<char>> = Vec::new();
    let mut i: usize = 0;
    assert(all.skip(0) =~= all);
    assert(views(out@) + drop_entries(all, id) =~= drop_entries(all, id));
    while i < ls.len()
        invariant
            i <= ls@.len(),
            all == views(ls@),
            prefix@ == anchor_prefix(id),
            views(out@) + drop_entries(all.skip(i as int), id) == drop_entries(all, id),
        decreases ls@.len() - i,
    {
        let ghost before = views(out@);
        let ghost rest = all.skip(i as int);
        assert(rest[0] == ls@[i as int]@);
        if opens_entry_exec(&ls[i], &prefix, Ghost(id)) {
            let step: usize = if ls.len() - i < 4 { ls.len() - i } else { 4 };
            assert(rest.skip(step as int) =~= all.skip(i + step));
            i = i + step;
        } else {
            out.push(copy_chars(&ls[i]));
            assert(rest.skip(1) =~= all.skip(i + 1));
            assert(views(out@) =~= before + seq![rest[0]]);
            i = i + 1;
        }
        assert(views(out@) + drop_entries(all.skip(i as int), id) =~= drop_entries(all, id));
    }
    assert(all.skip(i as int) =~= Seq::<Seq<char>>::empty());
    assert(views(out@) =~= drop_entries(all, id));
    string_of(&join_lines_exec(&out))
}

proof fn lemma_no_newline_concat(a: Seq<char>, b: Seq<char>)
    requires
        no_newline(a),
        no_newline(b),
    ensures
        no_newline(a + b),
{
    assert forall|i: int| 0 <= i < (a + b).len() implies (a + b)[i] != '\n' by {
        if i >= a.len() {
            assert((a + b)[i] == b[i - a.len()]);
        }
    }
}

proof fn lemma_decimal_no_newline(n: nat)
    ensures
        no_newline(decimal(n)),
    decreases n,
{
    if n >= 10 {
        lemma_decimal_no_newline(n / 10);
        assert(digit(n % 10) != '\n');
        lemma_no_newline_concat(decimal(n / 10), seq![digit(n % 10)]);
    } else {
        assert(digit(n) != '\n');
    }
}

proof fn lemma_date_no_newline(d: Date)
    ensures
        no_newline(date_text(d)),
{
    lemma_decimal_no_newline(d.month as nat);
    lemma_decimal_no_newline(d.day as nat);
    if d.year < 0 {
        lemma_decimal_no_newline((-d.year) as nat);
        lemma_no_newline_concat(seq!['-'], decimal((-d.year) as nat));
    } else {
        lemma_decimal_no_newline(d.year as nat);
    }
    lemma_no_newline_concat(seq!['0'], decimal(d.month as nat));
    lemma_no_newline_concat(seq!['0'], decimal(d.day as nat));
    let y = crate::text::signed_decimal(d.year as int);
    let m = crate::text::two_digits(d.month as nat);
    let dd = crate::text::two_digits(d.day as nat);
    lemma_no_newline_concat(y, seq!['-']);
    lemma_no_newline_concat(y + seq!['-'], m);
    lemma_no_newline_concat(y + seq!['-'] + m, seq!['-']);
    lemma_no_newline_concat(y + seq!['-'] + m + seq!['-'], dd);
}

/// Each line of an entry block is free of `'\n'` where its parts are.
proof fn lemma_block_no_newline(
    id: nat,
    title: Seq<char>,
    description: Seq<char>,
    d: Date,
    title_class: Seq<char>,
    description_class: Seq<char>,
)
    requires
        no_newline(title),
        no_newline(description),
        no_newline(title_class),
        no_newline(description_class),
    ensures
        forall|k: int|
            0 <= k < 4 ==> no_newline(
                #[trigger] entry_block(id, title, description, d, title_class, description_class)[k],
            ),
{
    reveal_strlit("<a title=\"post-");
    reveal_strlit("\"");
    reveal_strlit(" href=\"posts/post-");
    reveal_strlit(".html\">");
    reveal_strlit("<p class=\"");
    reveal_strlit("\">");
    reveal_strlit(": ");
    reveal_strlit("</p>");
    reveal_strlit("\">Description: ");
    reveal_strlit("</a>");
    lemma_decimal_no_newline(id);
    lemma_date_no_newline(d);
    let a0 = "<a title=\"post-"@;
    let qt = "\""@;
    let a1 = " href=\"posts/post-"@;
    let a2 = ".html\">"@;
    let p0 = "<p class=\""@;
    let p1 = "\">"@;
    let p2 = ": "@;
    let p3 = "</p>"@;
    let q1 = "\">Description: "@;
    let c = "</a>"@;
    assert(no_newline(a0));
    assert(no_newline(a1));
    assert(no_newline(a2));
    assert(no_newline(p0));
    assert(no_newline(p1));
    assert(no_newline(p2));
    assert(no_newline(p3));
    assert(no_newline(q1));
    assert(no_newline(c));
    let dec = decimal(id);
    assert(no_newline(qt));
    lemma_no_newline_concat(a0, dec);
    lemma_no_newline_concat(a0 + dec, qt);
    lemma_no_newline_concat(a0 + dec + qt, a1);
    lemma_no_newline_concat(a0 + dec + qt + a1, dec);
    lemma_no_newline_concat(a0 + dec + qt + a1 + dec, a2);
    let dt = date_text(d);
    lemma_no_newline_concat(p0, title_class);
    lemma_no_newline_concat(p0 + title_class, p1);
    lemma_no_newline_concat(p0 + title_class + p1, dt);
    lemma_no_newline_concat(p0 + title_class + p1 + dt, p2);
    lemma_no_newline_concat(p0 + title_class + p1 + dt + p2, title);
    lemma_no_newline_concat(p0 + title_class + p1 + dt + p2 + title, p3);
    lemma_no_newline_concat(p0, description_class);
    lemma_no_newline_concat(p0 + description_class, q1);
    lemma_no_newline_concat(p0 + description_class + q1, description);
    lemma_no_newline_concat(p0 + description_class + q1 + description, p3);
}

/// The first line of an entry block opens the entry.
proof fn lemma_block_opens(
    id: nat,
    title: Seq<char>,
    description: Seq<char>,
    d: Date,
    title_class: Seq<char>,
    description_class: Seq<char>,
)
    ensures
        opens_entry(entry_block(id, title, description, d, title_class, description_class)[0], id),
{
    reveal_strlit("<a title=\"post-");
    let l = entry_block(id, title, description, d, title_class, description_class)[0];
    let p = anchor_prefix(id);
    assert(l[0] == '<');
    assert(!is_space('<'));
    assert(trim_start(l) == l);
    assert(l.subrange(0, p.len() as int) =~= p);
}

proof fn lemma_insert_lines_no_newline(ls: Seq<Seq<char>>, block: Seq<Seq<char>>)
    requires
        forall|k: int| 0 <= k < ls.len() ==> no_newline(#[trigger] ls[k]),
        forall|k: int| 0 <= k < block.len() ==> no_newline(#[trigger] block[k]),
    ensures
        insert_after_markers(ls, block).len() >= ls.len(),
        forall|k: int|
            0 <= k < insert_after_markers(ls, block).len() ==> no_newline(
                #[trigger] insert_after_markers(ls, block)[k],
            ),
    decreases ls.len(),
{
    if ls.len() > 0 {
        let tail = ls.skip(1);
        assert forall|k: int| 0 <= k < tail.len() implies no_newline(#[trigger] tail[k]) by {
            assert(tail[k] == ls[k + 1]);
        }
        lemma_insert_lines_no_newline(tail, block);
        let rest = insert_after_markers(tail, block);
        let all = insert_after_markers(ls, block);
        if is_marker_line(ls[0]) {
            assert forall|k: int| 0 <= k < all.len() implies no_newline(#[trigger] all[k]) by {
                if k == 0 {
                } else if k <= block.len() {
                    assert(all[k] == block[k - 1]);
                } else {
                    assert(all[k] == rest[k - 1 - block.len()]);
                }
            }
        } else {
            assert forall|k: int| 0 <= k < all.len() implies no_newline(#[trigger] all[k]) by {
                if k > 0 {
                    assert(all[k] == rest[k - 1]);
                }
            }
        }
    }
}

/// Removing the entries of post `id` undoes inserting a block that opens one,
/// where no line opened one before.
proof fn lemma_drop_insert(ls: Seq<Seq<char>>, block: Seq<Seq<char>>, id: nat)
    requires
        block.len() == 4,
        opens_entry(block[0], id),
        forall|k: int| 0 <= k < ls.len() ==> !opens_entry(#[trigger] ls[k], id),
    ensures
        drop_entries(insert_after_markers(ls, block), id) == ls,
    decreases ls.len(),
{
    if ls.len() > 0 {
        let tail = ls.skip(1);
        assert forall|k: int| 0 <= k < tail.len() implies !opens_entry(#[trigger] tail[k], id) by {
            assert(tail[k] == ls[k + 1]);
        }
        lemma_drop_insert(tail, block, id);
        let rest = insert_after_markers(tail, block);
        let all = insert_after_markers(ls, block);
        assert(!opens_entry(ls[0], id));
        if is_marker_line(ls[0]) {
            assert(all.skip(1) =~= block + rest);
            assert((block + rest)[0] == block[0]);
            assert((block + rest).skip(4) =~= rest);
            assert(drop_entries(block + rest, id) == drop_entries(rest, id));
        } else {
            assert(all.skip(1) =~= rest);
        }
        assert(drop_entries(all, id) =~= ls);
    }
}

/// Inserting the entry of post `id` and then removing the entries of post `id`
/// gives the index back, where the title, description and class names hold no
/// line break and no line of the index opened an entry of post `id` before.
pub proof fn lemma_insert_then_remove(
    index: Seq<char>,
    id: nat,
    title: Seq<char>,
    description: Seq<char>,
    d: Date,
    title_class: Seq<char>,
    description_class: Seq<char>,
)
    requires
        no_newline(title),
        no_newline(description),
        no_newline(title_class),
        no_newline(description_class),
        forall|k: int|
            0 <= k < split_lines(index).len() ==> !opens_entry(#[trigger] split_lines(index)[k], id),
    ensures
        remove_spec(insert_spec(index, id, title, description, d, title_class, description_class), id)
            == index,
{
    let ls = split_lines(index);
    let block = entry_block(id, title, description, d, title_class, description_class);
    let ins = insert_after_markers(ls, block);
    lemma_split_nonempty(index);
    lemma_split_no_newline(index);
    lemma_block_no_newline(id, title, description, d, title_class, description_class);
    lemma_block_opens(id, title, description, d, title_class, description_class);
    lemma_insert_lines_no_newline(ls, block);
    lemma_split_join(ins);
    lemma_drop_insert(ls, block, id);
    lemma_join_split(index);
}

} // verus!
