//! What the web server offers beside the WebSocket: the list of custom layouts.
use vstd::prelude::*;
use vstd::string::StringExecFns;

use crate::text::ends_with;

verus! {

/// A custom layout.
#[derive(Debug, PartialEq)]
pub struct WebTemplateResponse {
    /// The path of the layout, relative to the web root.
    pub path: String,
    /// The name of the layout, which is that of its directory.
    pub name: String,
}

/// What a custom layout holds.
pub struct LayoutView {
    pub path: Seq<char>,
    pub name: Seq<char>,
}

impl View for WebTemplateResponse {
    type V = LayoutView;

    open spec fn view(&self) -> LayoutView {
        LayoutView { path: self.path@, name: self.name@ }
    }
}

/// An entry of the directory of custom layouts. A name is there if it is Unicode.
#[derive(Debug)]
pub struct LayoutEntry {
    pub name: Option<String>,
    pub is_dir: bool,
    /// The names in the directory, in the order in which they are listed.
    pub files: Vec<Option<String>>,
}

/// Whether a file name has the extension `html`: something comes before it.
pub open spec fn is_html(name: Seq<char>) -> bool {
    ".html"@.is_suffix_of(name) && name.len() > ".html"@.len()
}

/// The first file with the extension `html`.
pub open spec fn first_html(files: Seq<Option<String>>) -> Option<Seq<char>>
    decreases files.len(),
{
    if files.len() == 0 {
        None
    } else if files[0] matches Some(name) && is_html(name@) {
        Some(files[0]->0@)
    } else {
        first_html(files.drop_first())
    }
}

/// The layout that an entry stands for: a directory with a file that has the extension `html`, the
/// first of which is the layout.
pub open spec fn layout_of(entry: LayoutEntry) -> Option<LayoutView> {
    match (entry.name, first_html(entry.files@)) {
        (Some(name), Some(file)) => if entry.is_dir {
            Some(LayoutView { path: "custom/"@ + name@ + "/"@ + file, name: name@ })
        } else {
            None
        },
        _ => None,
    }
}

/// The layouts that the entries stand for, in order.
pub open spec fn layouts(entries: Seq<LayoutEntry>) -> Seq<LayoutView>
    decreases entries.len(),
{
    if entries.len() == 0 {
        Seq::empty()
    } else {
        match layout_of(entries.last()) {
            Some(layout) => layouts(entries.drop_last()).push(layout),
            None => layouts(entries.drop_last()),
        }
    }
}

/// The layouts that are listed: none where there is no web interface.
pub open spec fn listing(has_assets: bool, entries: Seq<LayoutEntry>) -> Seq<LayoutView> {
    if has_assets {
        layouts(entries)
    } else {
        Seq::empty()
    }
}

/// What the answers hold.
pub open spec fn answers(list: Seq<WebTemplateResponse>) -> Seq<LayoutView> {
    Seq::new(list.len(), |i: int| list[i]@)
}

fn html(name: &str) -> (r: bool)
    ensures
        r == is_html(name@),
{
    ends_with(name, ".html") && name.unicode_len() > ".html".unicode_len()
}

fn find_html(files: &Vec<Option<String>>) -> (r: Option<String>)
    ensures
        match r {
            Some(name) => first_html(files@) == Some(name@),
            None => first_html(files@) is None,
        },
{
    let mut i: usize = 0;
    assert(files@.skip(0) =~= files@);
    while i < files.len()
        invariant
            i <= files.len(),
            first_html(files@) == first_html(files@.skip(i as int)),
        decreases files.len() - i,
    {
        let ghost rest = files@.skip(i as int);
        assert(rest[0] == files@[i as int]);
        assert(rest.drop_first() =~= files@.skip(i + 1));
        match &files[i] {
            Some(name) => {
                if html(name.as_str()) {
                    return Some(name.clone());
                }
            },
            None => {},
        }
        i = i + 1;
    }
    None
}

fn layout(entry: &LayoutEntry) -> (r: Option<WebTemplateResponse>)
    ensures
        match r {
            Some(t) => layout_of(*entry) == Some(t@),
            None => layout_of(*entry) is None,
        },
{
    if !entry.is_dir {
        return None;
    }
    match (&entry.name, find_html(&entry.files)) {
        (Some(name), Some(file)) => {
            let mut path = "custom/".to_owned();
            path.append(name.as_str());
            path.append("/");
            path.append(file.as_str());
            Some(WebTemplateResponse { path, name: name.clone() })
        },
        _ => None,
    }
}

/// The web server: where it listens, and where the files of the web interface are.
#[derive(Debug)]
pub struct WebServer {
    pub bind_addr: String,
    pub web_assets_path: Option<String>,
}

impl WebServer {
    /// The custom layouts. `entries` is what the directory `custom` of the web interface holds.
    pub fn list_custom_layouts(&self, entries: &Vec<LayoutEntry>) -> (r: Vec<WebTemplateResponse>)
        ensures
            answers(r@) == listing(self.web_assets_path is Some, entries@),
    {
        let mut r: Vec<WebTemplateResponse> = Vec::new();
        if self.web_assets_path.is_none() {
            assert(answers(r@) =~= Seq::empty());
            return r;
        }
        let mut i: usize = 0;
        assert(entries@.take(0) =~= Seq::empty());
        assert(answers(r@) =~= layouts(entries@.take(0)));
        while i < entries.len()
            invariant
                i <= entries.len(),
                answers(r@) == layouts(entries@.take(i as int)),
            decreases entries.len() - i,
        {
            let ghost now = entries@.take(i + 1);
            let ghost before = answers(r@);
            assert(now.drop_last() =~= entries@.take(i as int));
            assert(now.last() == entries@[i as int]);
            match layout(&entries[i]) {
                Some(t) => {
                    let ghost added = t@;
                    r.push(t);
                    assert(answers(r@) =~= before.push(added));
                },
                None => {},
            }
            i = i + 1;
        }
        assert(entries@.take(i as int) =~= entries@);
        r
    }
}

/// Every layout that is listed lies in the directory that bears its name.
pub proof fn layouts_lie_in_their_directory(entries: Seq<LayoutEntry>, i: int)
    requires
        0 <= i < layouts(entries).len(),
    ensures
        ("custom/"@ + layouts(entries)[i].name + "/"@).is_prefix_of(layouts(entries)[i].path),
        is_html(layouts(entries)[i].path),
    decreases entries.len(),
{
    let front = entries.drop_last();
    if i < layouts(front).len() {
        layouts_lie_in_their_directory(front, i);
    } else {
        let entry = entries.last();
        let file = first_html(entry.files@)->0;
        lemma_first_html(entry.files@);
        let start = "custom/"@ + entry.name->0@ + "/"@;
        let path = start + file;
        let end = ".html"@;
        assert(path.take(start.len() as int) =~= start);
        assert(path.skip(path.len() - end.len()) =~= file.skip(file.len() - end.len()));
    }
}

proof fn lemma_first_html(files: Seq<Option<String>>)
    ensures
        first_html(files) matches Some(name) ==> is_html(name),
    decreases files.len(),
{
    if files.len() > 0 {
        lemma_first_html(files.drop_first());
    }
}

/// Files have the extension `html` exactly if their name ends in it and has something before the
/// dot.
pub proof fn html_files(stem: Seq<char>, name: Seq<char>)
    ensures
        is_html(stem + ".html"@) <==> stem.len() > 0,
        is_html(name) ==> name == name.take(name.len() - 5) + ".html"@,
{
    reveal_strlit(".html");
    let end = ".html"@;
    let full = stem + end;
    assert(end =~= full.subrange(full.len() - end.len(), full.len() as int));
    if is_html(name) {
        assert(name =~= name.take(name.len() - 5) + name.subrange(
            name.len() - 5,
            name.len() as int,
        ));
    }
}

proof fn lemma_first_html_at(files: Seq<Option<String>>, i: int)
    requires
        0 <= i <= files.len(),
        i < files.len() ==> files[i] is Some && is_html(files[i]->0@),
        forall|j: int|
            0 <= j < i && #[trigger] files[j] is Some ==> !is_html(files[j]->0@),
    ensures
        i < files.len() ==> first_html(files) == Some(files[i]->0@),
        i == files.len() ==> first_html(files) is None,
    decreases files.len(),
{
    if i > 0 {
        let rest = files.drop_first();
        assert(files[0] is Some ==> !is_html(files[0]->0@));
        if i < files.len() {
            assert(rest[i - 1] == files[i]);
        }
        assert forall|j: int| 0 <= j < i - 1 && #[trigger] rest[j] is Some implies !is_html(
            rest[j]->0@,
        ) by {
            assert(rest[j] == files[j + 1]);
        }
        lemma_first_html_at(rest, i - 1);
    }
}

/// A directory with a readable name is listed with the first of its files that has the extension
/// `html`. It is not listed if there is no such file, and an entry that is no directory is not listed
/// either.
pub proof fn directories_are_listed_with_their_first_page(entry: LayoutEntry, i: int)
    requires
        0 <= i <= entry.files@.len(),
        i < entry.files@.len() ==> entry.files@[i] is Some && is_html(entry.files@[i]->0@),
        forall|j: int|
            0 <= j < i && #[trigger] entry.files@[j] is Some ==> !is_html(entry.files@[j]->0@),
    ensures
        ({
            let list = layouts(seq![entry]);
            let listed = entry.is_dir && entry.name is Some && i < entry.files@.len();
            &&& listed ==> {
                &&& list.len() == 1
                &&& list[0].name == entry.name->0@
                &&& list[0].path == "custom/"@ + entry.name->0@ + "/"@ + entry.files@[i]->0@
            }
            &&& !listed ==> list.len() == 0
        }),
{
    lemma_first_html_at(entry.files@, i);
    let entries = seq![entry];
    assert(entries.drop_last() =~= Seq::empty());
    assert(entries.last() == entry);
    reveal_with_fuel(layouts, 2);
}

/// The layouts are listed entry by entry, in the order of the entries.
pub proof fn layouts_keep_their_order(front: Seq<LayoutEntry>, rest: Seq<LayoutEntry>)
    ensures
        layouts(front + rest) == layouts(front) + layouts(rest),
        layouts(Seq::empty()).len() == 0,
    decreases rest.len(),
{
    let a = layouts(front);
    if rest.len() == 0 {
        assert(front + rest =~= front);
        assert(a + Seq::<LayoutView>::empty() =~= a);
    } else {
        layouts_keep_their_order(front, rest.drop_last());
        assert((front + rest).drop_last() =~= front + rest.drop_last());
        assert((front + rest).last() == rest.last());
        let b = layouts(rest.drop_last());
        match layout_of(rest.last()) {
            Some(layout) => {
                assert((a + b).push(layout) =~= a + b.push(layout));
            },
            None => {},
        }
    }
}

/// Answers hold the same layouts exactly if they have the same paths and names.
pub proof fn layout_views_lose_nothing(a: Seq<WebTemplateResponse>, b: Seq<WebTemplateResponse>)
    requires
        answers(a) == answers(b),
    ensures
        a.len() == b.len(),
        forall|i: int|
            0 <= i < a.len() ==> (#[trigger] a[i]).path@ == b[i].path@ && a[i].name@ == b[i].name@,
{
    assert(answers(a).len() == a.len());
    assert(answers(b).len() == b.len());
    assert forall|i: int| 0 <= i < a.len() implies (#[trigger] a[i]).path@ == b[i].path@
        && a[i].name@ == b[i].name@ by {
        assert(answers(a)[i] == a[i]@);
        assert(answers(b)[i] == b[i]@);
    }
}

/// Where there is a web interface its layouts are listed, and otherwise none.
pub proof fn layouts_need_a_web_interface(entries: Seq<LayoutEntry>)
    ensures
        listing(false, entries).len() == 0,
        listing(true, entries) == layouts(entries),
{
}

} // verus!
