use vstd::prelude::*;

verus! {

/// The value of a `url(...)` function as the parser decoded it: quoted or
/// not, the quote characters are already gone.
#[derive(Debug)]
pub enum UrlValue {
    Str(String),
    Raw(String),
}

/// A `url(...)` function; `value` is `None` for `url()` with nothing in it.
#[derive(Debug)]
pub struct Url {
    pub value: Option<UrlValue>,
}

/// The target of an `@import`: a `url(...)` or a plain string.
#[derive(Debug)]
pub enum ImportHref {
    Url(Url),
    Str(String),
}

/// The prelude of an `@import` rule. The condition clauses are held as the
/// code generator's minified text of each: the supports condition, the
/// cascade layer name, and each media query in turn.
#[derive(Debug)]
pub struct ImportPrelude {
    pub href: ImportHref,
    pub supports: Option<String>,
    pub layer: Option<String>,
    pub media: Option<Vec<String>>,
}

/// A node that the analyzer reads, in the order of a depth-first walk of the
/// stylesheet. The `url(...)` functions nested in an import's conditions come
/// before the import's own prelude.
#[derive(Debug)]
pub enum Node {
    Url(Url),
    ImportPrelude(ImportPrelude),
}

/// A referenced location.
#[derive(Debug)]
pub struct CssUrl {
    pub value: String,
}

/// One `@import` rule.
#[derive(Debug)]
pub struct Import {
    pub url: CssUrl,
    pub supports: Option<String>,
    pub layer: Option<String>,
    pub media: Option<Vec<String>>,
}

/// Everything a stylesheet refers to, in document order.
#[derive(Debug)]
pub struct Dependencies {
    pub imports: Vec<Import>,
    pub urls: Vec<CssUrl>,
}

/// Collects the dependencies of the nodes it is shown.
#[derive(Debug)]
pub struct Analyzer {
    pub deps: Dependencies,
}

pub ghost struct ImportView {
    pub url: Seq<char>,
    pub supports: Option<Seq<char>>,
    pub layer: Option<Seq<char>>,
    pub media: Option<Seq<Seq<char>>>,
}

pub ghost struct DepsView {
    pub imports: Seq<ImportView>,
    pub urls: Seq<Seq<char>>,
}

pub open spec fn opt_view(o: Option<String>) -> Option<Seq<char>> {
    match o {
        Some(s) => Some(s@),
        None => None,
    }
}

pub open spec fn strings_view(v: Seq<String>) -> Seq<Seq<char>> {
    v.map_values(|s: String| s@)
}

pub open spec fn opt_strings_view(o: Option<Vec<String>>) -> Option<Seq<Seq<char>>> {
    match o {
        Some(v) => Some(strings_view(v@)),
        None => None,
    }
}

impl View for Import {
    type V = ImportView;

    open spec fn view(&self) -> ImportView {
        ImportView {
            url: self.url.value@,
            supports: opt_view(self.supports),
            layer: opt_view(self.layer),
            media: opt_strings_view(self.media),
        }
    }
}

impl View for Dependencies {
    type V = DepsView;

    open spec fn view(&self) -> DepsView {
        DepsView {
            imports: self.imports@.map_values(|i: Import| i@),
            urls: self.urls@.map_values(|u: CssUrl| u.value@),
        }
    }
}

/// The decoded text of a `url(...)`, whichever way it was written.
pub open spec fn url_text(n: Url) -> Option<Seq<char>> {
    match n.value {
        None => None,
        Some(UrlValue::Str(s)) => Some(s@),
        Some(UrlValue::Raw(s)) => Some(s@),
    }
}

/// The decoded text of an import's target.
pub open spec fn href_text(h: ImportHref) -> Option<Seq<char>> {
    match h {
        ImportHref::Url(u) => url_text(u),
        ImportHref::Str(s) => Some(s@),
    }
}

/// The record of an import, if its target has a value.
pub open spec fn import_record(p: ImportPrelude) -> Option<ImportView> {
    match href_text(p.href) {
        Some(url) => Some(
            ImportView {
                url,
                supports: opt_view(p.supports),
                layer: opt_view(p.layer),
                media: opt_strings_view(p.media),
            },
        ),
        None => None,
    }
}

pub open spec fn empty_deps() -> DepsView {
    DepsView { imports: Seq::empty(), urls: Seq::empty() }
}

/// What seeing one node adds to what was collected so far.
pub open spec fn visit_node(d: DepsView, n: Node) -> DepsView {
    match n {
        Node::Url(u) => match url_text(u) {
            Some(t) => DepsView { urls: d.urls.push(t), ..d },
            None => d,
        },
        Node::ImportPrelude(p) => match import_record(p) {
            Some(r) => DepsView { imports: d.imports.push(r), ..d },
            None => d,
        },
    }
}

/// What the analyzer collects from a walk that shows it `nodes`.
pub open spec fn analyze_spec(nodes: Seq<Node>) -> DepsView
    decreases nodes.len(),
{
    if nodes.len() == 0 {
        empty_deps()
    } else {
        visit_node(analyze_spec(nodes.drop_last()), nodes.last())
    }
}

/// Number of `@import` preludes among `nodes`.
pub open spec fn import_count(nodes: Seq<Node>) -> nat
    decreases nodes.len(),
{
    if nodes.len() == 0 {
        0
    } else {
        import_count(nodes.drop_last()) + if nodes.last() is ImportPrelude {
            1nat
        } else {
            0nat
        }
    }
}

/// Number of `url(...)` functions with a value among `nodes`.
pub open spec fn url_count(nodes: Seq<Node>) -> nat
    decreases nodes.len(),
{
    if nodes.len() == 0 {
        0
    } else {
        url_count(nodes.drop_last()) + match nodes.last() {
            Node::Url(u) => if url_text(u) is Some {
                1nat
            } else {
                0nat
            },
            _ => 0nat,
        }
    }
}

/// Every import among `nodes` has a target with a value.
pub open spec fn imports_resolve(nodes: Seq<Node>) -> bool {
    forall|i: int|
        0 <= i < nodes.len() && #[trigger] nodes[i] is ImportPrelude ==> import_record(
            nodes[i]->ImportPrelude_0,
        ) is Some
}

/// Wraps a decoded value.
pub fn parse_url(s: &str) -> (r: CssUrl)
    ensures
        r.value@ == s@,
{
    CssUrl { value: String::from_str(s) }
}

/// The referenced location of a `url(...)`; `None` where it has no value.
pub fn normalize_url(n: &Url) -> (r: Option<CssUrl>)
    ensures
        match r {
            Some(u) => url_text(*n) == Some(u.value@),
            None => url_text(*n) is None,
        },
{
    match &n.value {
        None => None,
        Some(UrlValue::Str(v)) => Some(parse_url(v.as_str())),
        Some(UrlValue::Raw(v)) => Some(parse_url(v.as_str())),
    }
}

/// The referenced location of an import's target.
pub fn normalize_import_href(n: &ImportHref) -> (r: Option<CssUrl>)
    ensures
        match r {
            Some(u) => href_text(*n) == Some(u.value@),
            None => href_text(*n) is None,
        },
{
    match n {
        ImportHref::Url(u) => normalize_url(u),
        ImportHref::Str(s) => Some(parse_url(s.as_str())),
    }
}

fn clone_opt(o: &Option<String>) -> (r: Option<String>)
    ensures
        opt_view(r) == opt_view(*o),
{
    match o {
        Some(s) => Some(s.clone()),
        None => None,
    }
}

fn clone_strings(v: &Vec<String>) -> (r: Vec<String>)
    ensures
        strings_view(r@) == strings_view(v@),
{
    let mut out: Vec<String> = Vec::new();
    let mut i: usize = 0;
    while i < v.len()
        invariant
            i <= v@.len(),
            strings_view(out@) == strings_view(v@.subrange(0, i as int)),
        decreases v@.len() - i,
    {
        let ghost before = out@;
        out.push(v[i].clone());
        proof {
            assert(strings_view(out@) =~= strings_view(before).push(v@[i as int]@));
            assert(v@.subrange(0, i + 1) =~= v@.subrange(0, i as int).push(v@[i as int]));
            assert(strings_view(v@.subrange(0, i + 1)) =~= strings_view(
                v@.subrange(0, i as int),
            ).push(v@[i as int]@));
        }
        i = i + 1;
    }
    proof {
        assert(v@.subrange(0, i as int) =~= v@);
    }
    out
}

fn clone_opt_strings(o: &Option<Vec<String>>) -> (r: Option<Vec<String>>)
    ensures
        opt_strings_view(r) == opt_strings_view(*o),
{
    match o {
        Some(v) => Some(clone_strings(v)),
        None => None,
    }
}

impl Analyzer {
    /// An analyzer that has seen nothing yet.
    pub fn new() -> (r: Analyzer)
        ensures
            r.deps@ == empty_deps(),
    {
        let r = Analyzer { deps: Dependencies { imports: Vec::new(), urls: Vec::new() } };
        proof {
            assert(r.deps@.imports =~= Seq::<ImportView>::empty());
            assert(r.deps@.urls =~= Seq::<Seq<char>>::empty());
        }
        r
    }

    /// Records the import that `n` begins, if its target has a value. The
    /// `url(...)` functions inside its conditions are seen on their own,
    /// before this call.
    pub fn visit_import_prelude(&mut self, n: &ImportPrelude)
        ensures
            final(self).deps@ == visit_node(old(self).deps@, Node::ImportPrelude(*n)),
    {
        if let Some(url) = normalize_import_href(&n.href) {
            let record = Import {
                url,
                supports: clone_opt(&n.supports),
                layer: clone_opt(&n.layer),
                media: clone_opt_strings(&n.media),
            };
            let ghost before = self.deps.imports@;
            let ghost rv = record@;
            self.deps.imports.push(record);
            proof {
                assert(self.deps.imports@.map_values(|i: Import| i@) =~= before.map_values(
                    |i: Import| i@,
                ).push(rv));
                assert(self.deps@ == visit_node(old(self).deps@, Node::ImportPrelude(*n)));
            }
        }
    }

    /// Records the location of a `url(...)`, if it has a value.
    pub fn visit_url(&mut self, n: &Url)
        ensures
            final(self).deps@ == visit_node(old(self).deps@, Node::Url(*n)),
    {
        if let Some(u) = normalize_url(n) {
            let ghost before = self.deps.urls@;
            let ghost uv = u.value@;
            self.deps.urls.push(u);
            proof {
                assert(self.deps.urls@.map_values(|u: CssUrl| u.value@) =~= before.map_values(
                    |u: CssUrl| u.value@,
                ).push(uv));
                assert(self.deps@ == visit_node(old(self).deps@, Node::Url(*n)));
            }
        }
    }

    /// Shows the analyzer one node.
    pub fn visit(&mut self, n: &Node)
        ensures
            final(self).deps@ == visit_node(old(self).deps@, *n),
    {
        match n {
            Node::Url(u) => self.visit_url(u),
            Node::ImportPrelude(p) => self.visit_import_prelude(p),
        }
    }
}

/// The dependencies of a stylesheet whose walk shows `nodes`, in that order.
pub fn analyze(nodes: &Vec<Node>) -> (r: Dependencies)
    ensures
        r@ == analyze_spec(nodes@),
{
    let mut a = Analyzer::new();
    let mut i: usize = 0;
    while i < nodes.len()
        invariant
            i <= nodes@.len(),
            a.deps@ == analyze_spec(nodes@.subrange(0, i as int)),
        decreases nodes@.len() - i,
    {
        a.visit(&nodes[i]);
        proof {
            let next = nodes@.subrange(0, i + 1);
            assert(next.drop_last() =~= nodes@.subrange(0, i as int));
        }
        i = i + 1;
    }
    proof {
        assert(nodes@.subrange(0, i as int) =~= nodes@);
    }
    a.deps
}

/// Quoting does not matter: `url("a")`, `url('a')` and `url(a)` decode to the
/// same text, and an import of that text as a plain string refers to the same
/// location.
pub proof fn lemma_url_form_irrelevant(quoted: String, raw: String)
    requires
        quoted@ == raw@,
    ensures
        url_text(Url { value: Some(UrlValue::Str(quoted)) }) == Some(raw@),
        url_text(Url { value: Some(UrlValue::Raw(raw)) }) == Some(raw@),
        href_text(ImportHref::Str(quoted)) == Some(raw@),
{
}

/// Order preservation: where every `@import` has a target with a value, the
/// analyzer records exactly one import for each `@import` and one location
/// for each `url(...)` with a value, each list in document order. The node
/// at position `i` lands at the index that counts the nodes of its kind
/// before it.
pub proof fn lemma_order_preserved(nodes: Seq<Node>)
    requires
        imports_resolve(nodes),
    ensures
        analyze_spec(nodes).imports.len() == import_count(nodes),
        analyze_spec(nodes).urls.len() == url_count(nodes),
        forall|i: int|
            0 <= i < nodes.len() && #[trigger] nodes[i] is ImportPrelude ==> analyze_spec(
                nodes,
            ).imports[import_count(nodes.take(i)) as int] == import_record(
                nodes[i]->ImportPrelude_0,
            )->0,
        forall|i: int|
            0 <= i < nodes.len() && #[trigger] nodes[i] is Url && url_text(nodes[i]->Url_0) is Some
                ==> analyze_spec(nodes).urls[url_count(nodes.take(i)) as int] == url_text(
                nodes[i]->Url_0,
            )->0,
{
    lemma_imports_in_order(nodes);
    lemma_urls_in_order(nodes);
}

proof fn lemma_imports_in_order(nodes: Seq<Node>)
    requires
        imports_resolve(nodes),
    ensures
        analyze_spec(nodes).imports.len() == import_count(nodes),
        forall|i: int|
            0 <= i < nodes.len() && #[trigger] nodes[i] is ImportPrelude ==> analyze_spec(
                nodes,
            ).imports[import_count(nodes.take(i)) as int] == import_record(
                nodes[i]->ImportPrelude_0,
            )->0,
    decreases nodes.len(),
{
    if nodes.len() > 0 {
        let prev = nodes.drop_last();
        let last_i = nodes.len() - 1;
        assert(imports_resolve(prev)) by {
            assert forall|i: int| 0 <= i < prev.len() && #[trigger] prev[i] is ImportPrelude implies import_record(
                prev[i]->ImportPrelude_0,
            ) is Some by {
                assert(prev[i] == nodes[i]);
            }
        }
        lemma_imports_in_order(prev);
        let d0 = analyze_spec(prev);
        let d1 = analyze_spec(nodes);
        assert(d1 == visit_node(d0, nodes.last()));
        assert(nodes.take(last_i) =~= prev);
        assert(nodes[last_i] == nodes.last());
        if nodes.last() is ImportPrelude {
            assert(nodes[last_i] is ImportPrelude);
            assert(d1.imports == d0.imports.push(import_record(nodes.last()->ImportPrelude_0)->0));
        } else {
            assert(d1.imports == d0.imports);
        }
        assert forall|i: int|
            0 <= i < nodes.len() && #[trigger] nodes[i] is ImportPrelude implies d1.imports[import_count(
                nodes.take(i),
            ) as int] == import_record(nodes[i]->ImportPrelude_0)->0 by {
            if i < last_i {
                assert(nodes.take(i) =~= prev.take(i));
                assert(prev[i] == nodes[i]);
                lemma_count_bound(prev, i);
            }
        }
    }
}

proof fn lemma_urls_in_order(nodes: Seq<Node>)
    ensures
        analyze_spec(nodes).urls.len() == url_count(nodes),
        forall|i: int|
            0 <= i < nodes.len() && #[trigger] nodes[i] is Url && url_text(nodes[i]->Url_0) is Some
                ==> analyze_spec(nodes).urls[url_count(nodes.take(i)) as int] == url_text(
                nodes[i]->Url_0,
            )->0,
    decreases nodes.len(),
{
    if nodes.len() > 0 {
        let prev = nodes.drop_last();
        let last_i = nodes.len() - 1;
        lemma_urls_in_order(prev);
        let d0 = analyze_spec(prev);
        let d1 = analyze_spec(nodes);
        assert(d1 == visit_node(d0, nodes.last()));
        assert(nodes.take(last_i) =~= prev);
        assert(nodes[last_i] == nodes.last());
        match nodes.last() {
            Node::Url(u) => {
                if url_text(u) is Some {
                    assert(d1.urls == d0.urls.push(url_text(u)->0));
                } else {
                    assert(d1.urls == d0.urls);
                }
            },
            Node::ImportPrelude(p) => {
                assert(d1.urls == d0.urls);
            },
        }
        assert forall|i: int|
            0 <= i < nodes.len() && #[trigger] nodes[i] is Url && url_text(nodes[i]->Url_0) is Some
                implies d1.urls[url_count(nodes.take(i)) as int] == url_text(nodes[i]->Url_0)->0 by {
            if i < last_i {
                assert(nodes.take(i) =~= prev.take(i));
                assert(prev[i] == nodes[i]);
                lemma_count_bound(prev, i);
            }
        }
    }
}

/// The count of a kind before position `i` is below the count of the whole
/// sequence where a node of that kind stands at `i`.
proof fn lemma_count_bound(nodes: Seq<Node>, i: int)
    requires
        0 <= i < nodes.len(),
    ensures
        nodes[i] is ImportPrelude ==> import_count(nodes.take(i)) < import_count(nodes),
        (nodes[i] is Url && url_text(nodes[i]->Url_0) is Some) ==> url_count(nodes.take(i))
            < url_count(nodes),
        import_count(nodes.take(i)) <= import_count(nodes),
        url_count(nodes.take(i)) <= url_count(nodes),
    decreases nodes.len(),
{
    let prev = nodes.drop_last();
    if i < nodes.len() - 1 {
        assert(nodes.take(i) =~= prev.take(i));
        assert(prev[i] == nodes[i]);
        lemma_count_bound(prev, i);
    } else {
        assert(nodes.take(i) =~= prev);
    }
}

} // verus!
