use vstd::prelude::*;

verus! {

/// One node of a parsed markup document.  The nodes of a document stand in a
/// sequence in document order (a pre-order walk of the tree, so a parent's
/// index is smaller than the indices of its descendants); `parent` is the
/// index of the enclosing element, if any.  Element nodes carry their tag
/// name and their attributes in source order; text and comment nodes carry
/// `None` and no attributes.
#[derive(Debug, PartialEq, Eq)]
pub struct MarkupNode {
    pub parent: Option<usize>,
    pub tag: Option<String>,
    pub attrs: Vec<(String, String)>,
}

#[verifier::ext_equal]
pub ghost struct NodeView {
    pub parent: Option<int>,
    pub tag: Option<Seq<char>>,
    pub attrs: Seq<(Seq<char>, Seq<char>)>,
}

impl View for MarkupNode {
    type V = NodeView;

    open spec fn view(&self) -> NodeView {
        NodeView {
            parent: match self.parent {
                Some(p) => Some(p as int),
                None => None,
            },
            tag: match self.tag {
                Some(t) => Some(t@),
                None => None,
            },
            attrs: self.attrs@.map_values(|kv: (String, String)| (kv.0@, kv.1@)),
        }
    }
}

pub open spec fn dom_view(nodes: Seq<MarkupNode>) -> Seq<NodeView> {
    nodes.map_values(|n: MarkupNode| n@)
}

/// The node list that parsing a markup text yields, in document order.  The
/// result depends on the text alone.
pub uninterp spec fn dom_of(text: Seq<char>) -> Seq<NodeView>;

/// Relies on select's `Document::from(&str)`: html5ever parses the text and
/// the resulting tree is flattened into a node list in pre-order, each node
/// keeping the index of its parent; element nodes keep their lower-cased tag
/// name and their attributes (local name and value) in source order.
#[verifier::external_body]
pub(crate) fn parse_markup(text: &str) -> (r: Vec<MarkupNode>)
    ensures
        dom_view(r@) == dom_of(text@),
{
    let doc = select::document::Document::from(text);
    doc.nodes
        .iter()
        .map(|raw| {
            let (tag, attrs) = match &raw.data {
                select::node::Data::Element(name, attrs) => (
                    Some(name.local.to_string()),
                    attrs.iter().map(|(k, v)| (k.local.to_string(), v.to_string())).collect(),
                ),
                select::node::Data::Text(_) => (None, vec![]),
                select::node::Data::Comment(_) => (None, vec![]),
            };
            MarkupNode { parent: raw.parent, tag, attrs }
        })
        .collect()
}

/// Character-for-character equality of two texts.
pub fn str_eq(a: &str, b: &str) -> (r: bool)
    ensures
        r == (a@ == b@),
{
    let n: usize = a.unicode_len();
    let m: usize = b.unicode_len();
    if n != m {
        return false;
    }
    let mut i: usize = 0;
    while i < n
        invariant
            n == a@.len(),
            n == b@.len(),
            i <= n,
            forall|j: int| 0 <= j < i ==> a@[j] == b@[j],
        decreases n - i,
    {
        if a.get_char(i) != b.get_char(i) {
            return false;
        }
        i += 1;
    }
    proof {
        assert(a@ =~= b@);
    }
    true
}

/// The characters that separate the tokens of a space-separated attribute
/// value (the Unicode white-space characters).
pub open spec fn is_space(c: char) -> bool {
    c == '\u{0009}' || c == '\u{000A}' || c == '\u{000B}' || c == '\u{000C}' || c == '\u{000D}'
        || c == ' ' || c == '\u{0085}' || c == '\u{00A0}' || c == '\u{1680}' || c == '\u{2000}'
        || c == '\u{2001}' || c == '\u{2002}' || c == '\u{2003}' || c == '\u{2004}'
        || c == '\u{2005}' || c == '\u{2006}' || c == '\u{2007}' || c == '\u{2008}'
        || c == '\u{2009}' || c == '\u{200A}' || c == '\u{2028}' || c == '\u{2029}'
        || c == '\u{202F}' || c == '\u{205F}' || c == '\u{3000}'
}

pub fn is_space_exec(c: char) -> (r: bool)
    ensures
        r == is_space(c),
{
    c == '\u{0009}' || c == '\u{000A}' || c == '\u{000B}' || c == '\u{000C}' || c == '\u{000D}'
        || c == ' ' || c == '\u{0085}' || c == '\u{00A0}' || c == '\u{1680}' || c == '\u{2000}'
        || c == '\u{2001}' || c == '\u{2002}' || c == '\u{2003}' || c == '\u{2004}'
        || c == '\u{2005}' || c == '\u{2006}' || c == '\u{2007}' || c == '\u{2008}'
        || c == '\u{2009}' || c == '\u{200A}' || c == '\u{2028}' || c == '\u{2029}'
        || c == '\u{202F}' || c == '\u{205F}' || c == '\u{3000}'
}

/// `tok` occurs in `s` at position `a` as a whole white-space-delimited
/// token.
pub open spec fn token_at(s: Seq<char>, tok: Seq<char>, a: int) -> bool {
    &&& 0 <= a
    &&& a + tok.len() <= s.len()
    &&& s.subrange(a, a + tok.len()) == tok
    &&& (a == 0 || is_space(s[a - 1]))
    &&& (a + tok.len() == s.len() || is_space(s[a + tok.len()]))
}

/// `tok` occurs somewhere in `s` as a whole white-space-delimited token.
pub open spec fn has_token(s: Seq<char>, tok: Seq<char>) -> bool {
    exists|a: int| token_at(s, tok, a)
}

fn matches_at(s: &str, tok: &str, a: usize) -> (r: bool)
    requires
        a + tok@.len() <= s@.len(),
    ensures
        r == (s@.subrange(a as int, a + tok@.len()) == tok@),
{
    let n: usize = s.unicode_len();
    let m: usize = tok.unicode_len();
    let mut j: usize = 0;
    while j < m
        invariant
            n == s@.len(),
            m == tok@.len(),
            a + m <= n,
            j <= m,
            forall|k: int| 0 <= k < j ==> s@[a + k] == tok@[k],
        decreases m - j,
    {
        if s.get_char(a + j) != tok.get_char(j) {
            proof {
                assert(s@.subrange(a as int, a + tok@.len())[j as int] == s@[a + j]);
            }
            return false;
        }
        j += 1;
    }
    proof {
        assert(s@.subrange(a as int, a + tok@.len()) =~= tok@);
    }
    true
}

fn token_at_exec(s: &str, tok: &str, a: usize) -> (r: bool)
    requires
        a <= s@.len(),
    ensures
        r == token_at(s@, tok@, a as int),
{
    let n: usize = s.unicode_len();
    let m: usize = tok.unicode_len();
    if m > n - a {
        return false;
    }
    if !matches_at(s, tok, a) {
        return false;
    }
    if a > 0 && !is_space_exec(s.get_char(a - 1)) {
        return false;
    }
    if a + m < n && !is_space_exec(s.get_char(a + m)) {
        return false;
    }
    true
}

/// Whether `tok` stands in `s` as one of its white-space-separated tokens;
/// this is how a class name is looked up in a `class` attribute.
pub fn has_token_exec(s: &str, tok: &str) -> (r: bool)
    requires
        tok@.len() > 0,
    ensures
        r == has_token(s@, tok@),
{
    let n: usize = s.unicode_len();
    let m: usize = tok.unicode_len();
    if m > n {
        return false;
    }
    let mut a: usize = 0;
    while a <= n - m
        invariant
            n == s@.len(),
            m == tok@.len(),
            0 < m <= n,
            a <= n - m + 1,
            forall|b: int| 0 <= b < a ==> !token_at(s@, tok@, b),
        decreases n - a,
    {
        if token_at_exec(s, tok, a) {
            return true;
        }
        a += 1;
    }
    proof {
        assert(forall|b: int| token_at(s@, tok@, b) ==> 0 <= b <= n - m);
    }
    false
}

/// The value of the first attribute named `name` at or after position `i`,
/// if any; an attribute list is searched front to back.
pub open spec fn attr_from(attrs: Seq<(Seq<char>, Seq<char>)>, name: Seq<char>, i: int) -> Option<
    Seq<char>,
>
    decreases attrs.len() - i,
{
    if i < 0 || i >= attrs.len() {
        None
    } else if attrs[i].0 == name {
        Some(attrs[i].1)
    } else {
        attr_from(attrs, name, i + 1)
    }
}

/// The value of the attribute named `name` on node `n`, if any.
pub open spec fn attr_of_spec(n: NodeView, name: Seq<char>) -> Option<Seq<char>> {
    attr_from(n.attrs, name, 0)
}

/// Look an attribute up by name on one node.
pub fn attr_of(n: &MarkupNode, name: &str) -> (r: Option<String>)
    ensures
        r matches Some(v) ==> attr_of_spec(n@, name@) == Some(v@),
        r is None ==> attr_of_spec(n@, name@) is None,
{
    let ghost av = n@.attrs;
    let mut i: usize = 0;
    while i < n.attrs.len()
        invariant
            av == n@.attrs,
            av.len() == n.attrs.len(),
            forall|j: int| 0 <= j < av.len() ==> av[j] == (n.attrs@[j].0@, n.attrs@[j].1@),
            i <= av.len(),
            attr_from(av, name@, 0) == attr_from(av, name@, i as int),
        decreases n.attrs.len() - i,
    {
        if str_eq(n.attrs[i].0.as_str(), name) {
            return Some(n.attrs[i].1.clone());
        }
        i += 1;
    }
    None
}

/// Whether node `n` is an element with the given tag name.
pub open spec fn is_tag(n: NodeView, tag: Seq<char>) -> bool {
    n.tag == Some(tag)
}

/// Whether node `n` carries class `cls` in its space-separated `class`
/// attribute.
pub open spec fn has_class(n: NodeView, cls: Seq<char>) -> bool {
    match attr_of_spec(n, "class"@) {
        Some(v) => has_token(v, cls),
        None => false,
    }
}

pub fn has_class_exec(n: &MarkupNode, cls: &str) -> (r: bool)
    requires
        cls@.len() > 0,
    ensures
        r == has_class(n@, cls@),
{
    match attr_of(n, "class") {
        Some(v) => has_token_exec(v.as_str(), cls),
        None => false,
    }
}

/// Whether node `j` of `dom` lies inside the subtree rooted at node `anc`,
/// following the parent links; a parent always precedes its children.
pub open spec fn descends_from(dom: Seq<NodeView>, anc: int, j: int) -> bool
    decreases j,
{
    if 0 <= j < dom.len() {
        match dom[j].parent {
            Some(p) => 0 <= p < j && (p == anc || descends_from(dom, anc, p)),
            None => false,
        }
    } else {
        false
    }
}

pub fn descends_from_exec(dom: &Vec<MarkupNode>, anc: usize, j: usize) -> (r: bool)
    requires
        j < dom@.len(),
    ensures
        r == descends_from(dom_view(dom@), anc as int, j as int),
{
    let ghost dv = dom_view(dom@);
    proof {
        assert(forall|k: int| 0 <= k < dv.len() ==> dv[k] == dom@[k]@);
    }
    let mut k: usize = j;
    loop
        invariant
            dv == dom_view(dom@),
            dv.len() == dom@.len(),
            forall|t: int| 0 <= t < dv.len() ==> dv[t] == dom@[t]@,
            k < dom@.len(),
            descends_from(dv, anc as int, j as int) == descends_from(dv, anc as int, k as int),
        decreases k,
    {
        match dom[k].parent {
            None => {
                return false;
            },
            Some(p) => {
                if p >= k {
                    return false;
                } else if p == anc {
                    return true;
                } else {
                    k = p;
                }
            },
        }
    }
}

/// The first node at or after position `i` that is an element with tag
/// `tag`.
pub open spec fn first_tag_from(dom: Seq<NodeView>, tag: Seq<char>, i: int) -> Option<int>
    decreases dom.len() - i,
{
    if i < 0 || i >= dom.len() {
        None
    } else if is_tag(dom[i], tag) {
        Some(i)
    } else {
        first_tag_from(dom, tag, i + 1)
    }
}

/// The first node at or after position `i` that is an element with tag `tag`
/// and whose attribute `name` has the value `value`.
pub open spec fn first_tag_attr_from(
    dom: Seq<NodeView>,
    tag: Seq<char>,
    name: Seq<char>,
    value: Seq<char>,
    i: int,
) -> Option<int>
    decreases dom.len() - i,
{
    if i < 0 || i >= dom.len() {
        None
    } else if is_tag(dom[i], tag) && attr_of_spec(dom[i], name) == Some(value) {
        Some(i)
    } else {
        first_tag_attr_from(dom, tag, name, value, i + 1)
    }
}

/// The first node at or after position `i` whose attribute `name` has the
/// value `value`.
pub open spec fn first_attr_value_from(
    dom: Seq<NodeView>,
    name: Seq<char>,
    value: Seq<char>,
    i: int,
) -> Option<int>
    decreases dom.len() - i,
{
    if i < 0 || i >= dom.len() {
        None
    } else if attr_of_spec(dom[i], name) == Some(value) {
        Some(i)
    } else {
        first_attr_value_from(dom, name, value, i + 1)
    }
}

/// The first node at or after position `i` that lies in the subtree of
/// `anc` and carries class `cls`.
pub open spec fn first_class_in_from(dom: Seq<NodeView>, anc: int, cls: Seq<char>, i: int) -> Option<
    int,
>
    decreases dom.len() - i,
{
    if i < 0 || i >= dom.len() {
        None
    } else if descends_from(dom, anc, i) && has_class(dom[i], cls) {
        Some(i)
    } else {
        first_class_in_from(dom, anc, cls, i + 1)
    }
}

fn node_is_tag(n: &MarkupNode, tag: &str) -> (r: bool)
    ensures
        r == is_tag(n@, tag@),
{
    match &n.tag {
        Some(t) => str_eq(t.as_str(), tag),
        None => false,
    }
}

fn node_attr_is(n: &MarkupNode, name: &str, value: &str) -> (r: bool)
    ensures
        r == (attr_of_spec(n@, name@) == Some(value@)),
{
    match attr_of(n, name) {
        Some(v) => str_eq(v.as_str(), value),
        None => false,
    }
}

/// Find the first element with the given tag name.
pub fn find_first_tag(dom: &Vec<MarkupNode>, tag: &str) -> (r: Option<usize>)
    ensures
        r matches Some(k) ==> k < dom@.len() && first_tag_from(dom_view(dom@), tag@, 0) == Some(
            k as int,
        ),
        r is None ==> first_tag_from(dom_view(dom@), tag@, 0) is None,
{
    let ghost dv = dom_view(dom@);
    let mut i: usize = 0;
    while i < dom.len()
        invariant
            dv == dom_view(dom@),
            dv.len() == dom@.len(),
            forall|t: int| 0 <= t < dv.len() ==> dv[t] == dom@[t]@,
            i <= dom@.len(),
            first_tag_from(dv, tag@, 0) == first_tag_from(dv, tag@, i as int),
        decreases dom@.len() - i,
    {
        if node_is_tag(&dom[i], tag) {
            return Some(i);
        }
        i += 1;
    }
    None
}

/// Find the first element with the given tag name whose attribute `name`
/// has the value `value`.
pub fn find_first_tag_attr(dom: &Vec<MarkupNode>, tag: &str, name: &str, value: &str) -> (r: Option<
    usize,
>)
    ensures
        r matches Some(k) ==> k < dom@.len() && first_tag_attr_from(
            dom_view(dom@),
            tag@,
            name@,
            value@,
            0,
        ) == Some(k as int),
        r is None ==> first_tag_attr_from(dom_view(dom@), tag@, name@, value@, 0) is None,
{
    let ghost dv = dom_view(dom@);
    let mut i: usize = 0;
    while i < dom.len()
        invariant
            dv == dom_view(dom@),
            dv.len() == dom@.len(),
            forall|t: int| 0 <= t < dv.len() ==> dv[t] == dom@[t]@,
            i <= dom@.len(),
            first_tag_attr_from(dv, tag@, name@, value@, 0) == first_tag_attr_from(
                dv,
                tag@,
                name@,
                value@,
                i as int,
            ),
        decreases dom@.len() - i,
    {
        if node_is_tag(&dom[i], tag) && node_attr_is(&dom[i], name, value) {
            return Some(i);
        }
        i += 1;
    }
    None
}

/// Find the first node whose attribute `name` has the value `value`.
pub fn find_first_attr_value(dom: &Vec<MarkupNode>, name: &str, value: &str) -> (r: Option<usize>)
    ensures
        r matches Some(k) ==> k < dom@.len() && first_attr_value_from(
            dom_view(dom@),
            name@,
            value@,
            0,
        ) == Some(k as int),
        r is None ==> first_attr_value_from(dom_view(dom@), name@, value@, 0) is None,
{
    let ghost dv = dom_view(dom@);
    let mut i: usize = 0;
    while i < dom.len()
        invariant
            dv == dom_view(dom@),
            dv.len() == dom@.len(),
            forall|t: int| 0 <= t < dv.len() ==> dv[t] == dom@[t]@,
            i <= dom@.len(),
            first_attr_value_from(dv, name@, value@, 0) == first_attr_value_from(
                dv,
                name@,
                value@,
                i as int,
            ),
        decreases dom@.len() - i,
    {
        if node_attr_is(&dom[i], name, value) {
            return Some(i);
        }
        i += 1;
    }
    None
}

/// Find the first node inside the subtree of `anc` that carries class
/// `cls`.
pub fn find_first_class_in(dom: &Vec<MarkupNode>, anc: usize, cls: &str) -> (r: Option<usize>)
    requires
        cls@.len() > 0,
    ensures
        r matches Some(k) ==> k < dom@.len() && first_class_in_from(
            dom_view(dom@),
            anc as int,
            cls@,
            0,
        ) == Some(k as int),
        r is None ==> first_class_in_from(dom_view(dom@), anc as int, cls@, 0) is None,
{
    let ghost dv = dom_view(dom@);
    let mut i: usize = 0;
    while i < dom.len()
        invariant
            cls@.len() > 0,
            dv == dom_view(dom@),
            dv.len() == dom@.len(),
            forall|t: int| 0 <= t < dv.len() ==> dv[t] == dom@[t]@,
            i <= dom@.len(),
            first_class_in_from(dv, anc as int, cls@, 0) == first_class_in_from(
                dv,
                anc as int,
                cls@,
                i as int,
            ),
        decreases dom@.len() - i,
    {
        if descends_from_exec(dom, anc, i) && has_class_exec(&dom[i], cls) {
            return Some(i);
        }
        i += 1;
    }
    None
}

} // verus!
