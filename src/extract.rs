//! Pulling attribute values out of HTML markup: title links from search
//! pages and image sources from chapter pages.
use vstd::prelude::*;
use select::document::Document;
use select::predicate::Name;

verus! {

/// For each `container` element of `markup`, in document order, what
/// select's `Node::attr` reads of `attribute` on it.
pub uninterp spec fn container_attribute_slots(
    markup: Seq<char>,
    container: Seq<char>,
    attribute: Seq<char>,
) -> Seq<Option<Seq<char>>>;

/// For each `container` element of `markup`, in document order, what
/// select's `Node::attr` reads of `attribute` on its first `link`
/// descendant; `None` where it has no such descendant.
pub uninterp spec fn nested_attribute_slots(
    markup: Seq<char>,
    container: Seq<char>,
    link: Seq<char>,
    attribute: Seq<char>,
) -> Seq<Option<Seq<char>>>;

/// An optional string, viewed as an optional character sequence.
pub open spec fn slot_view(o: Option<String>) -> Option<Seq<char>> {
    match o {
        Some(s) => Some(s@),
        None => None,
    }
}

pub open spec fn slot_views(v: Seq<Option<String>>) -> Seq<Option<Seq<char>>> {
    v.map_values(|o: Option<String>| slot_view(o))
}

pub open spec fn string_views(v: Seq<String>) -> Seq<Seq<char>> {
    v.map_values(|s: String| s@)
}

/// The values that are present, in their original order.
pub open spec fn present(s: Seq<Option<Seq<char>>>) -> Seq<Seq<char>>
    decreases s.len(),
{
    if s.len() == 0 {
        seq![]
    } else {
        match s.last() {
            Some(v) => present(s.drop_last()).push(v),
            None => present(s.drop_last()),
        }
    }
}

/// How many values are present.
pub open spec fn count_present(s: Seq<Option<Seq<char>>>) -> nat
    decreases s.len(),
{
    if s.len() == 0 {
        0
    } else {
        count_present(s.drop_last()) + if s.last() is Some {
            1nat
        } else {
            0nat
        }
    }
}

/// Relies on select's `Document::from`, `Document::find` and `Node::attr`:
/// parses `markup` and reads `attribute` off each `container` element.
#[verifier::external_body]
fn container_attributes(markup: &str, container: &str, attribute: &str) -> (r: Vec<Option<String>>)
    ensures
        slot_views(r@) == container_attribute_slots(markup@, container@, attribute@),
{
    let document = Document::from(markup);
    let mut slots = Vec::new();
    for node in document.find(Name(container)) {
        slots.push(node.attr(attribute).map(String::from));
    }
    slots
}

/// Relies on select's `Document::from`, `Document::find`, `Node::find` and
/// `Node::attr`: parses `markup` and, for each `container` element, reads
/// `attribute` off its first `link` descendant.
#[verifier::external_body]
fn nested_attributes(markup: &str, container: &str, link: &str, attribute: &str) -> (r: Vec<
    Option<String>,
>)
    ensures
        slot_views(r@) == nested_attribute_slots(markup@, container@, link@, attribute@),
{
    let document = Document::from(markup);
    let mut slots = Vec::new();
    for node in document.find(Name(container)) {
        let first = node.find(Name(link)).next();
        slots.push(first.and_then(|n| n.attr(attribute)).map(String::from));
    }
    slots
}

/// Keeps the values that are present, in order.
pub fn present_values(slots: &Vec<Option<String>>) -> (r: Vec<String>)
    ensures
        string_views(r@) == present(slot_views(slots@)),
{
    let mut out: Vec<String> = Vec::new();
    let mut i: usize = 0;
    while i < slots.len()
        invariant
            i <= slots.len(),
            string_views(out@) == present(slot_views(slots@.take(i as int))),
        decreases slots.len() - i,
    {
        let ghost before = slot_views(slots@.take(i as int));
        let ghost after = slot_views(slots@.take(i + 1));
        assert(after.drop_last() =~= before);
        assert(after.last() == slot_view(slots@[i as int]));
        match &slots[i] {
            Some(v) => {
                out.push(v.clone());
                assert(string_views(out@) =~= present(after));
            },
            None => {},
        }
        i += 1;
    }
    assert(slots@.take(slots.len() as int) =~= slots@);
    out
}

/// The values of `attribute` on the `container` elements of `markup`, or on
/// the first `link` descendant of each where `link` is given, in document
/// order; elements without it are left out.
pub fn extract(markup: &str, container: &str, link: Option<&str>, attribute: &str) -> (r: Vec<
    String,
>)
    ensures
        string_views(r@) == present(
            match link {
                Some(l) => nested_attribute_slots(markup@, container@, l@, attribute@),
                None => container_attribute_slots(markup@, container@, attribute@),
            },
        ),
{
    let slots = match link {
        Some(l) => nested_attributes(markup, container, l, attribute),
        None => container_attributes(markup, container, attribute),
    };
    present_values(&slots)
}

/// The links of the titles on a search page: the `href` of the first `a`
/// inside each `h3`.
pub fn title_links(markup: &str) -> (r: Vec<String>)
    ensures
        string_views(r@) == present(
            nested_attribute_slots(markup@, seq!['h', '3'], seq!['a'], seq!['h', 'r', 'e', 'f']),
        ),
{
    proof {
        reveal_strlit("h3");
        reveal_strlit("a");
        reveal_strlit("href");
    }
    assert("h3"@ =~= seq!['h', '3']);
    assert("a"@ =~= seq!['a']);
    assert("href"@ =~= seq!['h', 'r', 'e', 'f']);
    extract(markup, "h3", Some("a"), "href")
}

/// The image sources of a chapter page: the `src` of each `img`.
pub fn image_sources(markup: &str) -> (r: Vec<String>)
    ensures
        string_views(r@) == present(
            container_attribute_slots(markup@, seq!['i', 'm', 'g'], seq!['s', 'r', 'c']),
        ),
{
    proof {
        reveal_strlit("img");
        reveal_strlit("src");
    }
    assert("img"@ =~= seq!['i', 'm', 'g']);
    assert("src"@ =~= seq!['s', 'r', 'c']);
    extract(markup, "img", None, "src")
}

/// Exactly the present values are kept, in document order: the value at
/// position `i` lands after every present value before it, so values that
/// are missing shift nothing.
pub proof fn lemma_present_keeps_order(s: Seq<Option<Seq<char>>>)
    ensures
        present(s).len() == count_present(s),
        forall|i: int|
            0 <= i < s.len() && (#[trigger] s[i]) is Some ==> count_present(s.take(i))
                < present(s).len() && present(s)[count_present(s.take(i)) as int] == s[i]->0,
    decreases s.len(),
{
    if s.len() > 0 {
        let p = s.drop_last();
        lemma_present_keeps_order(p);
        assert forall|i: int| 0 <= i < s.len() && (#[trigger] s[i]) is Some implies count_present(
            s.take(i),
        ) < present(s).len() && present(s)[count_present(s.take(i)) as int] == s[i]->0 by {
            if i < s.len() - 1 {
                assert(s.take(i) =~= p.take(i));
                assert(p[i] == s[i]);
            } else {
                assert(s.take(i) =~= p);
                assert(s.last() == s[i]);
            }
        };
    }
}

} // verus!
