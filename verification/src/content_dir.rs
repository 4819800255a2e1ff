//! Which files of a content directory are ingested at setup, in which
//! order, and under which document id.

use vstd::prelude::*;
use vstd::string::*;

use crate::api::{ApiCall, HindsightClient, OperationView, ReplyCheckView};
use crate::text::{chars_of, is_blank, is_blank_text, string_of, views_of};

verus! {

broadcast use vstd::string::group_string_axioms;

// ── File names ──────────────────────────────────────────

/// The position of the last `.` in `name`, or -1 when there is none.
pub open spec fn last_dot(name: Seq<char>) -> int
    decreases name.len(),
{
    if name.len() == 0 {
        -1
    } else if name.last() == '.' {
        name.len() - 1
    } else {
        last_dot(name.drop_last())
    }
}

/// Whether a file name has no extension however it is cut: it is `..`, has
/// no `.`, or has its only `.` first.
pub open spec fn has_no_extension(name: Seq<char>) -> bool {
    name == seq!['.', '.'] || last_dot(name) <= 0
}

/// The extension of a file name: what follows its last `.`, unless the name
/// has none.
pub open spec fn extension_of(name: Seq<char>) -> Option<Seq<char>> {
    if has_no_extension(name) {
        None
    } else {
        Some(name.subrange(last_dot(name) + 1, name.len() as int))
    }
}

/// The stem of a file name: what precedes its last `.`, or the whole name
/// when it has no extension.
pub open spec fn stem_of(name: Seq<char>) -> Seq<char> {
    if has_no_extension(name) {
        name
    } else {
        name.subrange(0, last_dot(name))
    }
}

/// The extensions of the files that are ingested.
pub open spec fn content_extensions() -> Seq<Seq<char>> {
    seq!["md"@, "txt"@, "html"@, "json"@, "csv"@, "xml"@]
}

/// Whether a file with this name is ingested.
pub open spec fn is_content_name(name: Seq<char>) -> bool {
    match extension_of(name) {
        Some(ext) => content_extensions().contains(ext),
        None => false,
    }
}

proof fn lemma_last_dot(name: Seq<char>)
    ensures
        -1 <= last_dot(name) < name.len(),
        last_dot(name) >= 0 ==> name[last_dot(name)] == '.',
        forall|i: int| last_dot(name) < i < name.len() ==> name[i] != '.',
    decreases name.len(),
{
    if name.len() > 0 && name.last() != '.' {
        lemma_last_dot(name.drop_last());
        assert forall|i: int| 0 <= i < name.len() - 1 implies name.drop_last()[i] == name[i] by {}
    }
}

/// The position of the last `.` in `cs`, if any.
fn find_last_dot(cs: &Vec<char>) -> (r: Option<usize>)
    ensures
        match r {
            Some(i) => i == last_dot(cs@),
            None => last_dot(cs@) == -1,
        },
{
    let mut end: usize = cs.len();
    assert(cs@.take(end as int) =~= cs@);
    while end > 0
        invariant
            end <= cs@.len(),
            last_dot(cs@) == last_dot(cs@.take(end as int)),
        decreases end,
    {
        if cs[end - 1] == '.' {
            return Some(end - 1);
        }
        assert(cs@.take(end as int).drop_last() =~= cs@.take(end - 1));
        end = end - 1;
    }
    None
}

/// Whether `cs` has no extension, as [`has_no_extension`] says.
fn no_extension(cs: &Vec<char>, dot: Option<usize>) -> (r: bool)
    requires
        match dot {
            Some(i) => i == last_dot(cs@),
            None => last_dot(cs@) == -1,
        },
    ensures
        r == has_no_extension(cs@),
{
    let dotdot = cs.len() == 2 && cs[0] == '.' && cs[1] == '.';
    proof {
        if dotdot {
            assert(cs@ =~= seq!['.', '.']);
        }
    }
    match dot {
        Some(i) => dotdot || i == 0,
        None => true,
    }
}

/// The extension of a file name, if it has one.
pub fn extension(name: &str) -> (r: Option<String>)
    ensures
        match r {
            Some(e) => extension_of(name@) == Some(e@),
            None => extension_of(name@) is None,
        },
{
    let cs = chars_of(name);
    let dot = find_last_dot(&cs);
    if no_extension(&cs, dot) {
        return None;
    }
    proof {
        lemma_last_dot(cs@);
    }
    assert(dot is Some);
    let d: usize = dot.unwrap();
    assert(d < cs.len());
    let mut tail: Vec<char> = Vec::new();
    let mut i: usize = d + 1;
    while i < cs.len()
        invariant
            d + 1 <= i <= cs@.len(),
            tail@ == cs@.subrange(d + 1, i as int),
        decreases cs.len() - i,
    {
        tail.push(cs[i]);
        i = i + 1;
        assert(tail@ =~= cs@.subrange(d + 1, i as int));
    }
    let e = string_of(tail.as_slice(), tail.len());
    assert(e@ =~= tail@);
    Some(e)
}

/// The stem of a file name.
pub fn stem(name: &str) -> (r: String)
    ensures
        r@ == stem_of(name@),
{
    let cs = chars_of(name);
    let dot = find_last_dot(&cs);
    if no_extension(&cs, dot) {
        return String::from_str(name);
    }
    proof {
        lemma_last_dot(cs@);
    }
    string_of(cs.as_slice(), dot.unwrap())
}

/// Whether a file with this name is ingested.
pub fn is_content_file_name(name: &str) -> (r: bool)
    ensures
        r == is_content_name(name@),
{
    match extension(name) {
        Some(ext) => {
            let known: [&str; 6] = ["md", "txt", "html", "json", "csv", "xml"];
            let mut i: usize = 0;
            while i < 6
                invariant
                    i <= 6,
                    extension_of(name@) == Some(ext@),
                    forall|k: int| 0 <= k < i ==> content_extensions()[k] != ext@,
                    forall|k: int| 0 <= k < 6 ==> (#[trigger] known@[k])@ == content_extensions()[k],
                decreases 6 - i,
            {
                if ext == String::from_str(known[i]) {
                    assert(content_extensions()[i as int] == ext@);
                    assert(content_extensions().contains(ext@));
                    return true;
                }
                i = i + 1;
            }
            false
        },
        None => false,
    }
}

// ── Ordering names ──────────────────────────────────────

/// Whether `a` comes strictly before `b`, comparing character by character
/// and putting a proper prefix first.
pub open spec fn text_lt(a: Seq<char>, b: Seq<char>) -> bool
    decreases a.len(),
{
    if a.len() == 0 {
        b.len() > 0
    } else if b.len() == 0 {
        false
    } else if a[0] != b[0] {
        a[0] < b[0]
    } else {
        text_lt(a.drop_first(), b.drop_first())
    }
}

/// Whether `a` comes before `b` or equals it.
pub open spec fn text_le(a: Seq<char>, b: Seq<char>) -> bool {
    a == b || text_lt(a, b)
}

/// Whether `names` is in order.
pub open spec fn sorted_texts(names: Seq<Seq<char>>) -> bool {
    forall|i: int, j: int| 0 <= i < j < names.len() ==> text_le(#[trigger] names[i], #[trigger] names[j])
}

/// Of two different texts, one comes before the other.
pub proof fn lemma_text_lt_total(a: Seq<char>, b: Seq<char>)
    ensures
        a == b || text_lt(a, b) || text_lt(b, a),
    decreases a.len(),
{
    if a.len() > 0 && b.len() > 0 && a[0] == b[0] {
        lemma_text_lt_total(a.drop_first(), b.drop_first());
        if a.drop_first() == b.drop_first() {
            assert(a.drop_first().len() == b.drop_first().len());
            assert(a.len() == b.len());
            assert forall|i: int| 0 <= i < a.len() implies a[i] == b[i] by {
                if i > 0 {
                    assert(a[i] == a.drop_first()[i - 1]);
                    assert(b[i] == b.drop_first()[i - 1]);
                }
            }
            assert(a =~= b);
        }
    } else if a.len() == 0 && b.len() == 0 {
        assert(a =~= b);
    } else if a.len() > 0 && b.len() > 0 {
        assert(a[0] != b[0]);
    }
}

/// The order on texts is transitive.
pub proof fn lemma_text_lt_transitive(a: Seq<char>, b: Seq<char>, c: Seq<char>)
    requires
        text_lt(a, b),
        text_lt(b, c),
    ensures
        text_lt(a, c),
    decreases a.len(),
{
    if a.len() > 0 && a[0] == b[0] && b[0] == c[0] {
        lemma_text_lt_transitive(a.drop_first(), b.drop_first(), c.drop_first());
    }
}

/// No text comes strictly before itself.
pub proof fn lemma_text_lt_irreflexive(a: Seq<char>)
    ensures
        !text_lt(a, a),
    decreases a.len(),
{
    if a.len() > 0 {
        lemma_text_lt_irreflexive(a.drop_first());
    }
}

/// Whether `a` comes strictly before `b`.
pub fn text_less(a: &str, b: &str) -> (r: bool)
    ensures
        r == text_lt(a@, b@),
{
    let xs = chars_of(a);
    let ys = chars_of(b);
    let mut i: usize = 0;
    assert(xs@.skip(0) =~= xs@ && ys@.skip(0) =~= ys@);
    while i < xs.len() && i < ys.len() && xs[i] == ys[i]
        invariant
            i <= xs@.len(),
            i <= ys@.len(),
            xs@ == a@,
            ys@ == b@,
            text_lt(a@, b@) == text_lt(xs@.skip(i as int), ys@.skip(i as int)),
        decreases xs.len() - i,
    {
        assert(xs@.skip(i as int).drop_first() =~= xs@.skip(i + 1));
        assert(ys@.skip(i as int).drop_first() =~= ys@.skip(i + 1));
        i = i + 1;
    }
    if i == xs.len() {
        i < ys.len()
    } else if i == ys.len() {
        false
    } else {
        xs[i] < ys[i]
    }
}

// ── Choosing the files ──────────────────────────────────

/// Whether a file with this name is ingested, as a predicate.
pub open spec fn content_pred() -> spec_fn(Seq<char>) -> bool {
    |t: Seq<char>| is_content_name(t)
}

proof fn lemma_insert_multiset<A>(s: Seq<A>, p: int, x: A)
    requires
        0 <= p <= s.len(),
    ensures
        s.insert(p, x).to_multiset() =~= s.to_multiset().insert(x),
{
    let t = s.insert(p, x);
    s.insert_ensures(p, x);
    t.to_multiset_ensures();
    assert(t.remove(p) =~= s);
    assert(t.to_multiset().count(x) > 0) by {
        assert(t[p] == x);
        assert(t.contains(x));
    }
    assert(t.to_multiset().remove(x).insert(x) =~= t.to_multiset());
}

/// The names of the files to ingest, out of the names of the files of a
/// directory: those with a content extension, in order.
pub fn select_content_files(names: &Vec<String>) -> (r: Vec<String>)
    ensures
        sorted_texts(views_of(r@)),
        views_of(r@).to_multiset() =~= views_of(names@).filter(content_pred()).to_multiset(),
{
    let mut out: Vec<String> = Vec::new();
    let mut i: usize = 0;
    proof {
        assert(views_of(names@).take(0) =~= Seq::<Seq<char>>::empty());
        assert(views_of(out@) =~= Seq::<Seq<char>>::empty());
        reveal(Seq::filter);
        assert(views_of(names@).take(0).filter(content_pred()) =~= Seq::<Seq<char>>::empty());
    }
    while i < names.len()
        invariant
            i <= names@.len(),
            sorted_texts(views_of(out@)),
            views_of(out@).to_multiset() =~= views_of(names@).take(i as int).filter(
                content_pred(),
            ).to_multiset(),
        decreases names.len() - i,
    {
        let name = &names[i];
        let ghost vnames = views_of(names@);
        proof {
            assert(vnames.take(i + 1) =~= vnames.take(i as int).push(name@));
            vnames.take(i as int).lemma_filter_push(name@, content_pred());
        }
        let keep = is_content_file_name(name.as_str());
        proof {
            if !keep {
                assert(!content_pred()(name@));
            }
        }
        if keep {
            // find the first entry that the name comes before
            let mut p: usize = 0;
            while p < out.len() && !text_less(name.as_str(), out[p].as_str())
                invariant
                    p <= out@.len(),
                    forall|k: int| 0 <= k < p ==> !text_lt(name@, (#[trigger] out@[k])@),
                decreases out.len() - p,
            {
                p = p + 1;
            }
            let ghost before = views_of(out@);
            let copy = name.clone();
            out.insert(p, copy);
            proof {
                let after = views_of(out@);
                assert(after =~= before.insert(p as int, name@));
                before.insert_ensures(p as int, name@);
                lemma_insert_multiset(before, p as int, name@);
                vnames.take(i as int).filter(content_pred()).to_multiset_ensures();
                assert(content_pred()(name@));
                assert forall|a: int, b: int| 0 <= a < b < after.len() implies text_le(
                    #[trigger] after[a],
                    #[trigger] after[b],
                ) by {
                    if a < p && b == p {
                        lemma_text_lt_total(before[a], name@);
                        assert(!text_lt(name@, out@[a]@));
                    } else if a == p && b > p {
                        // the name comes before before[p], which is at most before[b - 1]
                        assert(text_lt(name@, before[p as int]));
                        if b - 1 > p {
                            assert(text_le(before[p as int], before[b - 1]));
                            if before[p as int] != before[b - 1] {
                                lemma_text_lt_transitive(name@, before[p as int], before[b - 1]);
                            }
                        }
                    } else if a < p && b > p {
                        assert(text_le(before[a], before[b - 1]));
                    } else if a > p {
                        assert(text_le(before[a - 1], before[b - 1]));
                    } else {
                        assert(text_le(before[a], before[b]));
                    }
                }
            }
        }
        i = i + 1;
    }
    assert(views_of(names@).take(names.len() as int) =~= views_of(names@));
    out
}

// ── Ingesting one file ──────────────────────────────────

/// What ingesting the file `file_name` with text `text` sends: nothing when
/// the text is empty or only white space, else a retain of the text under
/// the file's stem.
pub fn content_file_retain(client: &HindsightClient, file_name: &str, text: &str) -> (r: Option<ApiCall>)
    ensures
        r is None <==> is_blank_text(text@),
        r matches Some(call) ==> call.request@ == client.retain_request(text@, Some(stem_of(file_name@)))
            && call.check@ == ReplyCheckView::NotError(OperationView::Retain),
{
    if is_blank(text) {
        return None;
    }
    let document_id = stem(file_name);
    Some(client.retain(text, Some(document_id.as_str())))
}

// ── Laws ────────────────────────────────────────────────

/// Whether `ext` is one of the extensions of ingested files: Markdown, plain
/// text, HTML, JSON, CSV or XML.
pub open spec fn is_ingested_extension(ext: Seq<char>) -> bool {
    ||| ext == "md"@
    ||| ext == "txt"@
    ||| ext == "html"@
    ||| ext == "json"@
    ||| ext == "csv"@
    ||| ext == "xml"@
}

proof fn lemma_ingested_extensions_have_no_dot(ext: Seq<char>)
    requires
        is_ingested_extension(ext),
    ensures
        ext.len() >= 2,
        forall|k: int| 0 <= k < ext.len() ==> ext[k] != '.',
{
    reveal_strlit("md");
    reveal_strlit("txt");
    reveal_strlit("html");
    reveal_strlit("json");
    reveal_strlit("csv");
    reveal_strlit("xml");
}

/// A file named by a non-empty stem, a `.` and one of the six extensions is
/// ingested, and that extension is the one it has; and a file is ingested
/// only when its extension is one of the six.
pub proof fn lemma_content_files_by_extension(stem: Seq<char>, ext: Seq<char>, name: Seq<char>)
    ensures
        stem.len() > 0 && is_ingested_extension(ext) ==> {
            &&& extension_of(stem + seq!['.'] + ext) == Some(ext)
            &&& is_content_name(stem + seq!['.'] + ext)
        },
        is_content_name(name) <==> (extension_of(name) matches Some(e) && is_ingested_extension(e)),
{
    reveal_strlit("md");
    reveal_strlit("txt");
    reveal_strlit("html");
    reveal_strlit("json");
    reveal_strlit("csv");
    reveal_strlit("xml");
    if stem.len() > 0 && is_ingested_extension(ext) {
        lemma_ingested_extensions_have_no_dot(ext);
        let full = stem + seq!['.'] + ext;
        lemma_last_dot(full);
        let p = stem.len() as int;
        assert(full[p] == '.');
        assert forall|i: int| p < i < full.len() implies full[i] != '.' by {
            assert(full[i] == ext[i - p - 1]);
        }
        assert(last_dot(full) == p);
        assert(full != seq!['.', '.']) by {
            assert(full.len() != 2);
        }
        assert(full.subrange(p + 1, full.len() as int) =~= ext);
        assert(content_extensions().contains(ext)) by {
            if ext == "md"@ {
                assert(content_extensions()[0] == ext);
            } else if ext == "txt"@ {
                assert(content_extensions()[1] == ext);
            } else if ext == "html"@ {
                assert(content_extensions()[2] == ext);
            } else if ext == "json"@ {
                assert(content_extensions()[3] == ext);
            } else if ext == "csv"@ {
                assert(content_extensions()[4] == ext);
            } else {
                assert(content_extensions()[5] == ext);
            }
        }
    }
    if let Some(e) = extension_of(name) {
        if content_extensions().contains(e) {
            let k = choose|k: int| 0 <= k < content_extensions().len() && content_extensions()[k] == e;
            assert(is_ingested_extension(e));
        }
        if is_ingested_extension(e) {
            assert(content_extensions().contains(e)) by {
                if e == "md"@ {
                    assert(content_extensions()[0] == e);
                } else if e == "txt"@ {
                    assert(content_extensions()[1] == e);
                } else if e == "html"@ {
                    assert(content_extensions()[2] == e);
                } else if e == "json"@ {
                    assert(content_extensions()[3] == e);
                } else if e == "csv"@ {
                    assert(content_extensions()[4] == e);
                } else {
                    assert(content_extensions()[5] == e);
                }
            }
        }
    }
}

/// The selection of content files keeps every ingested file of the
/// directory, as often as the directory lists it.
pub proof fn lemma_selection_keeps_content_files(names: Seq<Seq<char>>, name: Seq<char>)
    requires
        is_content_name(name),
    ensures
        names.filter(content_pred()).to_multiset().count(name) == names.to_multiset().count(name),
    decreases names.len(),
{
    broadcast use vstd::seq_lib::group_seq_properties;
    broadcast use vstd::multiset::group_multiset_axioms;
    if names.len() > 0 {
        let rest = names.drop_last();
        lemma_selection_keeps_content_files(rest, name);
        assert(names =~= rest.push(names.last()));
        rest.lemma_filter_push(names.last(), content_pred());
        rest.filter(content_pred()).to_multiset_ensures();
        rest.to_multiset_ensures();
        rest.filter(content_pred()).push(names.last()).to_multiset_ensures();
        rest.push(names.last()).to_multiset_ensures();
    } else {
        assert(names.filter(content_pred()) =~= Seq::<Seq<char>>::empty());
    }
}

} // verus!
