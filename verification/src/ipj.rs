//! Reading an Inventor project file (`.ipj`).
//!
//! The file is XML whose layout varies between Inventor versions, so fields are recognised by
//! the normalised name of an element and by the normalised path of element names leading to
//! it. The first match wins for single-valued fields; library and content-center paths are
//! collected without repeats.
use vstd::prelude::*;
use crate::paths::opt_view;
use crate::text::{
    alnum_lower, ascii_lower, is_ascii_alnum, alnum_lower_chars, chars_eq, chars_of, contains, contains_exec, ends_with,
    ends_with_exec, string_of, trim, trim_chars,
};
use crate::xml::{nodes_view, parse_xml_nodes, xml_parse, XmlNode, XmlNodeView};
use vstd::string::StringExecFns;

verus! {

/// The fields of a project file that the import uses.
pub struct ParsedIpj {
    pub project_name: Option<String>,
    pub project_type: Option<String>,
    pub workspace_path: Option<String>,
    pub library_paths: Vec<String>,
    pub content_center_paths: Vec<String>,
    pub inventor_version: Option<String>,
}

pub struct ParsedIpjView {
    pub project_name: Option<Seq<char>>,
    pub project_type: Option<Seq<char>>,
    pub workspace_path: Option<Seq<char>>,
    pub library_paths: Seq<Seq<char>>,
    pub content_center_paths: Seq<Seq<char>>,
    pub inventor_version: Option<Seq<char>>,
}

/// The views of a sequence of strings.
pub open spec fn strings_view(v: Seq<String>) -> Seq<Seq<char>> {
    v.map_values(|s: String| s@)
}

impl View for ParsedIpj {
    type V = ParsedIpjView;

    open spec fn view(&self) -> ParsedIpjView {
        ParsedIpjView {
            project_name: opt_view(self.project_name),
            project_type: opt_view(self.project_type),
            workspace_path: opt_view(self.workspace_path),
            library_paths: strings_view(self.library_paths@),
            content_center_paths: strings_view(self.content_center_paths@),
            inventor_version: opt_view(self.inventor_version),
        }
    }
}

/// Nothing found yet.
pub open spec fn empty_parsed() -> ParsedIpjView {
    ParsedIpjView {
        project_name: None,
        project_type: None,
        workspace_path: None,
        library_paths: Seq::empty(),
        content_center_paths: Seq::empty(),
        inventor_version: None,
    }
}

impl Default for ParsedIpj {
    fn default() -> (p: Self)
        ensures
            p@ == empty_parsed(),
    {
        let p = ParsedIpj {
            project_name: None,
            project_type: None,
            workspace_path: None,
            library_paths: Vec::new(),
            content_center_paths: Vec::new(),
            inventor_version: None,
        };
        assert(p@.library_paths =~= Seq::<Seq<char>>::empty());
        assert(p@.content_center_paths =~= Seq::<Seq<char>>::empty());
        p
    }
}

/// A node named `path` or `location`, the leaf under a named group.
pub open spec fn is_location_leaf(name: Seq<char>) -> bool {
    name == "path"@ || name == "location"@
}

pub open spec fn workspace_field(name: Seq<char>, path: Seq<char>) -> bool {
    ||| name == "workspacepath"@
    ||| name == "workspace"@
    ||| contains(path, "workspace"@) && is_location_leaf(name)
}

pub open spec fn library_field(name: Seq<char>, path: Seq<char>) -> bool {
    ||| name == "librarypath"@
    ||| name == "library"@
    ||| contains(path, "library"@) && is_location_leaf(name)
}

pub open spec fn content_center_field(name: Seq<char>, path: Seq<char>) -> bool {
    ||| name == "contentcenterpath"@
    ||| name == "contentcenter"@
    ||| contains(path, "contentcenter"@) && is_location_leaf(name)
}

pub open spec fn project_name_field(name: Seq<char>, path: Seq<char>) -> bool {
    ||| name == "projectname"@
    ||| name == "name"@ && contains(path, "project"@)
    ||| ends_with(path, "/project/name"@)
}

pub open spec fn project_type_field(name: Seq<char>, path: Seq<char>) -> bool {
    ||| name == "projecttype"@
    ||| name == "type"@ && contains(path, "project"@)
    ||| ends_with(path, "/project/type"@)
}

pub open spec fn inventor_version_field(name: Seq<char>, path: Seq<char>) -> bool {
    ||| name == "inventorversion"@
    ||| name == "version"@ && contains(path, "inventor"@)
    ||| ends_with(path, "/inventor/version"@)
}

/// An attribute whose normalised name speaks of the Inventor version.
pub open spec fn version_attribute_name(name: Seq<char>) -> bool {
    let n = alnum_lower(name);
    (contains(n, "inventor"@) && contains(n, "version"@)) || n == "version"@
}

/// The trimmed value of the first version attribute whose trimmed value is not empty.
pub open spec fn version_from_attributes(attrs: Seq<(Seq<char>, Seq<char>)>) -> Option<Seq<char>>
    decreases attrs.len(),
{
    if attrs.len() == 0 {
        None
    } else if version_attribute_name(attrs[0].0) && trim(attrs[0].1).len() > 0 {
        Some(trim(attrs[0].1))
    } else {
        version_from_attributes(attrs.drop_first())
    }
}

/// A node's text, trimmed, when that is not empty.
pub open spec fn trimmed_text(text: Option<Seq<char>>) -> Option<Seq<char>> {
    match text {
        Some(t) => if trim(t).len() > 0 {
            Some(trim(t))
        } else {
            None
        },
        None => None,
    }
}

/// The normalised names of the elements among `ancestors` (listed from the node up), from the
/// outermost down.
pub open spec fn ancestor_names(ancestors: Seq<(bool, Seq<char>)>) -> Seq<Seq<char>>
    decreases ancestors.len(),
{
    if ancestors.len() == 0 {
        Seq::empty()
    } else {
        let rest = ancestor_names(ancestors.drop_first());
        if ancestors[0].0 {
            rest.push(alnum_lower(ancestors[0].1))
        } else {
            rest
        }
    }
}

/// `parts` joined with `/` between them.
pub open spec fn join_slash(parts: Seq<Seq<char>>) -> Seq<char>
    decreases parts.len(),
{
    if parts.len() == 0 {
        Seq::empty()
    } else if parts.len() == 1 {
        parts[0]
    } else {
        join_slash(parts.drop_last()) + seq!['/'] + parts.last()
    }
}

/// The normalised element path of a node: `project/workspace/path` and the like.
pub open spec fn node_path(ancestors: Seq<(bool, Seq<char>)>) -> Seq<char> {
    join_slash(ancestor_names(ancestors))
}

/// `list` with `value` added at the end unless it is already there.
pub open spec fn push_unique_spec(list: Seq<Seq<char>>, value: Seq<char>) -> Seq<Seq<char>> {
    if list.contains(value) {
        list
    } else {
        list.push(value)
    }
}

/// What one node adds to what was found before it.
pub open spec fn ipj_step(p: ParsedIpjView, n: XmlNodeView) -> ParsedIpjView {
    if !n.is_element {
        p
    } else {
        let name = alnum_lower(n.name);
        let path = node_path(n.ancestors);
        let p1 = if p.inventor_version is None && version_from_attributes(n.attributes) is Some {
            ParsedIpjView { inventor_version: version_from_attributes(n.attributes), ..p }
        } else {
            p
        };
        match trimmed_text(n.text) {
            None => p1,
            Some(t) => if p1.workspace_path is None && workspace_field(name, path) {
                ParsedIpjView { workspace_path: Some(t), ..p1 }
            } else if library_field(name, path) {
                ParsedIpjView { library_paths: push_unique_spec(p1.library_paths, t), ..p1 }
            } else if content_center_field(name, path) {
                ParsedIpjView {
                    content_center_paths: push_unique_spec(p1.content_center_paths, t),
                    ..p1
                }
            } else if p1.project_name is None && project_name_field(name, path) {
                ParsedIpjView { project_name: Some(t), ..p1 }
            } else if p1.project_type is None && project_type_field(name, path) {
                ParsedIpjView { project_type: Some(t), ..p1 }
            } else if p1.inventor_version is None && inventor_version_field(name, path) {
                ParsedIpjView { inventor_version: Some(t), ..p1 }
            } else {
                p1
            },
        }
    }
}

/// What the nodes, taken in document order, yield.
pub open spec fn ipj_fold(nodes: Seq<XmlNodeView>) -> ParsedIpjView
    decreases nodes.len(),
{
    if nodes.len() == 0 {
        empty_parsed()
    } else {
        ipj_step(ipj_fold(nodes.drop_last()), nodes.last())
    }
}

/// Keeps the ASCII letters and digits of `name`, lower-cased: `Workspace_Path` gives
/// `workspacepath`.
pub fn normalize_name(name: &str) -> (r: String)
    ensures
        r@ == alnum_lower(name@),
{
    let v = alnum_lower_chars(&chars_of(name));
    string_of(&v)
}

/// The normalised element path of a node, given the node and its ancestors (node first).
pub fn normalized_node_path(ancestors: &Vec<(bool, String)>) -> (r: Vec<char>)
    ensures
        r@ == node_path(ancestors@.map_values(|a: (bool, String)| (a.0, a.1@))),
{
    let ghost anc = ancestors@.map_values(|a: (bool, String)| (a.0, a.1@));
    let n = ancestors.len();
    let mut parts: Vec<Vec<char>> = Vec::new();
    let mut k: usize = n;
    assert(anc.subrange(n as int, n as int) =~= Seq::<(bool, Seq<char>)>::empty());
    while k > 0
        invariant
            n == ancestors.len(),
            anc.len() == n,
            anc == ancestors@.map_values(|a: (bool, String)| (a.0, a.1@)),
            0 <= k <= n,
            parts@.map_values(|v: Vec<char>| v@) == ancestor_names(anc.subrange(k as int, n as int)),
        decreases k,
    {
        let ghost before = parts@.map_values(|v: Vec<char>| v@);
        let entry = &ancestors[k - 1];
        assert(anc.subrange(k - 1, n as int).drop_first() =~= anc.subrange(k as int, n as int));
        assert(anc.subrange(k - 1, n as int)[0] == anc[k - 1]);
        if entry.0 {
            let name = alnum_lower_chars(&chars_of(entry.1.as_str()));
            parts.push(name);
            assert(parts@.map_values(|v: Vec<char>| v@) =~= before.push(
                alnum_lower(anc[k - 1].1),
            ));
        }
        k = k - 1;
    }
    assert(anc.subrange(0, n as int) =~= anc);
    let ghost names = parts@.map_values(|v: Vec<char>| v@);
    let mut out: Vec<char> = Vec::new();
    let mut i: usize = 0;
    while i < parts.len()
        invariant
            0 <= i <= parts.len(),
            names == parts@.map_values(|v: Vec<char>| v@),
            names.len() == parts.len(),
            out@ == join_slash(names.take(i as int)),
        decreases parts.len() - i,
    {
        assert(names.take(i + 1).drop_last() =~= names.take(i as int));
        assert(names.take(i + 1).last() == parts@[i as int]@);
        if i > 0 {
            out.push('/');
        }
        let part = &parts[i];
        let ghost o = out@;
        let mut j: usize = 0;
        while j < part.len()
            invariant
                0 <= j <= part.len(),
                out@ == o + part@.take(j as int),
            decreases part.len() - j,
        {
            out.push(part[j]);
            j = j + 1;
            assert(out@ =~= o + part@.take(j as int));
        }
        assert(part@.take(part.len() as int) =~= part@);
        i = i + 1;
        assert(out@ =~= join_slash(names.take(i as int))) by {
            if i == 1 {
                assert(names.take(1)[0] == part@);
            }
        }
    }
    assert(names.take(parts.len() as int) =~= names);
    out
}

/// Adds `value` to `target` unless an equal string is already there.
pub fn push_unique(target: &mut Vec<String>, value: &str)
    ensures
        strings_view(final(target)@) == push_unique_spec(strings_view(old(target)@), value@),
{
    let v = value.to_owned();
    let mut i: usize = 0;
    while i < target.len()
        invariant
            0 <= i <= target.len(),
            v@ == value@,
            target@ == old(target)@,
            forall|j: int| 0 <= j < i ==> target@[j]@ != value@,
        decreases target.len() - i,
    {
        if target[i] == v {
            assert(strings_view(target@)[i as int] == value@);
            return;
        }
        i = i + 1;
    }
    assert(!strings_view(old(target)@).contains(value@)) by {
        if strings_view(old(target)@).contains(value@) {
            let j = choose|j: int|
                0 <= j < strings_view(old(target)@).len() && strings_view(old(target)@)[j]
                    == value@;
            assert(target@[j]@ == value@);
        }
    }
    target.push(v);
    assert(strings_view(target@) =~= strings_view(old(target)@).push(value@));
}

pub fn literal_eq(s: &[char], lit: &str) -> (r: bool)
    ensures
        r == (s@ == lit@),
{
    chars_eq(s, &chars_of(lit))
}

fn is_location_leaf_exec(name: &[char]) -> (r: bool)
    ensures
        r == is_location_leaf(name@),
{
    literal_eq(name, "path") || literal_eq(name, "location")
}

pub fn looks_like_workspace_field(node_name: &[char], path: &[char]) -> (r: bool)
    ensures
        r == workspace_field(node_name@, path@),
{
    literal_eq(node_name, "workspacepath") || literal_eq(node_name, "workspace") || (contains_exec(
        path,
        &chars_of("workspace"),
    ) && is_location_leaf_exec(node_name))
}

pub fn looks_like_library_field(node_name: &[char], path: &[char]) -> (r: bool)
    ensures
        r == library_field(node_name@, path@),
{
    literal_eq(node_name, "librarypath") || literal_eq(node_name, "library") || (contains_exec(
        path,
        &chars_of("library"),
    ) && is_location_leaf_exec(node_name))
}

pub fn looks_like_content_center_field(node_name: &[char], path: &[char]) -> (r: bool)
    ensures
        r == content_center_field(node_name@, path@),
{
    literal_eq(node_name, "contentcenterpath") || literal_eq(node_name, "contentcenter") || (
    contains_exec(path, &chars_of("contentcenter")) && is_location_leaf_exec(node_name))
}

pub fn looks_like_project_name_field(node_name: &[char], path: &[char]) -> (r: bool)
    ensures
        r == project_name_field(node_name@, path@),
{
    literal_eq(node_name, "projectname") || (literal_eq(node_name, "name") && contains_exec(
        path,
        &chars_of("project"),
    )) || ends_with_exec(path, &chars_of("/project/name"))
}

pub fn looks_like_project_type_field(node_name: &[char], path: &[char]) -> (r: bool)
    ensures
        r == project_type_field(node_name@, path@),
{
    literal_eq(node_name, "projecttype") || (literal_eq(node_name, "type") && contains_exec(
        path,
        &chars_of("project"),
    )) || ends_with_exec(path, &chars_of("/project/type"))
}

pub fn looks_like_inventor_version_field(node_name: &[char], path: &[char]) -> (r: bool)
    ensures
        r == inventor_version_field(node_name@, path@),
{
    literal_eq(node_name, "inventorversion") || (literal_eq(node_name, "version")
        && contains_exec(path, &chars_of("inventor"))) || ends_with_exec(
        path,
        &chars_of("/inventor/version"),
    )
}

/// The trimmed value of the first version attribute with a non-empty trimmed value.
fn version_attribute(attributes: &Vec<(String, String)>) -> (r: Option<String>)
    ensures
        opt_view(r) == version_from_attributes(
            attributes@.map_values(|a: (String, String)| (a.0@, a.1@)),
        ),
{
    let ghost attrs = attributes@.map_values(|a: (String, String)| (a.0@, a.1@));
    let mut i: usize = 0;
    assert(attrs.skip(0) =~= attrs);
    while i < attributes.len()
        invariant
            0 <= i <= attributes.len(),
            attrs == attributes@.map_values(|a: (String, String)| (a.0@, a.1@)),
            version_from_attributes(attrs) == version_from_attributes(attrs.skip(i as int)),
        decreases attributes.len() - i,
    {
        let attr = &attributes[i];
        assert(attrs.skip(i as int).drop_first() =~= attrs.skip(i + 1));
        assert(attrs.skip(i as int)[0] == (attr.0@, attr.1@));
        let name = alnum_lower_chars(&chars_of(attr.0.as_str()));
        let is_version = (contains_exec(&name, &chars_of("inventor")) && contains_exec(
            &name,
            &chars_of("version"),
        )) || literal_eq(&name, "version");
        if is_version {
            let value = trim_chars(&chars_of(attr.1.as_str()));
            if value.len() > 0 {
                return Some(string_of(&value));
            }
        }
        i = i + 1;
    }
    assert(attrs.skip(i as int).len() == 0);
    None
}

/// Applies one node to what was found so far.
fn apply_node(p: &mut ParsedIpj, node: &XmlNode)
    ensures
        final(p)@ == ipj_step(old(p)@, node@),
{
    if !node.is_element {
        return;
    }
    let name = alnum_lower_chars(&chars_of(node.name.as_str()));
    let path = normalized_node_path(&node.ancestors);
    if p.inventor_version.is_none() {
        match version_attribute(&node.attributes) {
            Some(v) => {
                p.inventor_version = Some(v);
            },
            None => {},
        }
    }
    let text = match &node.text {
        Some(t) => {
            let trimmed = trim_chars(&chars_of(t.as_str()));
            if trimmed.len() > 0 {
                Some(trimmed)
            } else {
                None
            }
        },
        None => None,
    };
    let t = match text {
        Some(t) => t,
        None => {
            return;
        },
    };
    let value = string_of(&t);
    if p.workspace_path.is_none() && looks_like_workspace_field(&name, &path) {
        p.workspace_path = Some(value);
        return;
    }
    if looks_like_library_field(&name, &path) {
        push_unique(&mut p.library_paths, value.as_str());
        return;
    }
    if looks_like_content_center_field(&name, &path) {
        push_unique(&mut p.content_center_paths, value.as_str());
        return;
    }
    if p.project_name.is_none() && looks_like_project_name_field(&name, &path) {
        p.project_name = Some(value);
        return;
    }
    if p.project_type.is_none() && looks_like_project_type_field(&name, &path) {
        p.project_type = Some(value);
        return;
    }
    if p.inventor_version.is_none() && looks_like_inventor_version_field(&name, &path) {
        p.inventor_version = Some(value);
    }
}

/// Reads the project fields from the nodes of a parsed document, in document order.
pub fn parse_ipj_nodes(nodes: &Vec<XmlNode>) -> (p: ParsedIpj)
    ensures
        p@ == ipj_fold(nodes_view(nodes@)),
{
    let mut p = ParsedIpj::default();
    let mut i: usize = 0;
    while i < nodes.len()
        invariant
            0 <= i <= nodes.len(),
            p@ == ipj_fold(nodes_view(nodes@.take(i as int))),
        decreases nodes.len() - i,
    {
        assert(nodes_view(nodes@.take(i + 1)).drop_last() =~= nodes_view(nodes@.take(i as int)));
        assert(nodes_view(nodes@.take(i + 1)).last() == nodes@[i as int]@);
        apply_node(&mut p, &nodes[i]);
        i = i + 1;
    }
    assert(nodes@.take(nodes.len() as int) =~= nodes@);
    p
}

/// Parses the text of a project file. Fails only where the text is not well-formed XML.
pub fn parse_ipj(xml: &str) -> (r: Result<ParsedIpj, String>)
    ensures
        match xml_parse(xml@) {
            Ok(nodes) => r matches Ok(p) && p@ == ipj_fold(nodes),
            Err(e) => r matches Err(m) && m@ == "IPJ XML 파싱에 실패했습니다: "@ + e,
        },
{
    match parse_xml_nodes(xml) {
        Ok(nodes) => Ok(parse_ipj_nodes(&nodes)),
        Err(e) => {
            let mut m = String::new();
            m.append("IPJ XML 파싱에 실패했습니다: ");
            m.append(e.as_str());
            Err(m)
        },
    }
}

/// No value occurs twice.
pub open spec fn no_repeats(s: Seq<Seq<char>>) -> bool {
    forall|i: int, j: int| 0 <= i < j < s.len() ==> s[i] != s[j]
}

proof fn lemma_push_unique_keeps(list: Seq<Seq<char>>, v: Seq<char>)
    requires
        no_repeats(list),
    ensures
        no_repeats(push_unique_spec(list, v)),
        push_unique_spec(list, v).contains(v),
{
    if !list.contains(v) {
        let r = list.push(v);
        assert forall|i: int, j: int| 0 <= i < j < r.len() implies r[i] != r[j] by {
            if j == list.len() {
                assert(list[i] != v);
            }
        }
        assert(r[list.len() as int] == v);
    }
}

/// Library and content-center paths are collected without repeats.
pub proof fn lemma_paths_without_repeats(nodes: Seq<XmlNodeView>)
    ensures
        no_repeats(ipj_fold(nodes).library_paths),
        no_repeats(ipj_fold(nodes).content_center_paths),
    decreases nodes.len(),
{
    if nodes.len() > 0 {
        lemma_paths_without_repeats(nodes.drop_last());
        let p = ipj_fold(nodes.drop_last());
        let n = nodes.last();
        if n.is_element {
            if let Some(t) = trimmed_text(n.text) {
                lemma_push_unique_keeps(p.library_paths, t);
                lemma_push_unique_keeps(p.content_center_paths, t);
            }
        }
    }
}

/// Once found, a single-valued field keeps its first value.
pub proof fn lemma_first_value_kept(nodes: Seq<XmlNodeView>, k: int)
    requires
        0 <= k <= nodes.len(),
    ensures
        ipj_fold(nodes.take(k)).project_name is Some ==> ipj_fold(nodes).project_name == ipj_fold(
            nodes.take(k),
        ).project_name,
        ipj_fold(nodes.take(k)).project_type is Some ==> ipj_fold(nodes).project_type == ipj_fold(
            nodes.take(k),
        ).project_type,
        ipj_fold(nodes.take(k)).workspace_path is Some ==> ipj_fold(nodes).workspace_path
            == ipj_fold(nodes.take(k)).workspace_path,
        ipj_fold(nodes.take(k)).inventor_version is Some ==> ipj_fold(nodes).inventor_version
            == ipj_fold(nodes.take(k)).inventor_version,
    decreases nodes.len() - k,
{
    if k == nodes.len() {
        assert(nodes.take(k) =~= nodes);
    } else {
        assert(nodes.take(k + 1).drop_last() =~= nodes.take(k));
        lemma_first_value_kept(nodes, k + 1);
    }
}

/// The elements that name each field. Whatever the element's path, an element named
/// `Workspace` or `WorkspacePath` (in any case, with any punctuation) holds the workspace,
/// `Library` or `LibraryPath` a library path, `ContentCenter` or `ContentCenterPath` a
/// content-center path, `ProjectName` the name, `ProjectType` the type and `InventorVersion`
/// the version; a `Path` or `Location` element under a workspace element holds the workspace.
pub proof fn lemma_field_names(path: Seq<char>)
    ensures
        workspace_field("workspace"@, path),
        workspace_field("workspacepath"@, path),
        library_field("library"@, path),
        library_field("librarypath"@, path),
        content_center_field("contentcenter"@, path),
        content_center_field("contentcenterpath"@, path),
        project_name_field("projectname"@, path),
        project_type_field("projecttype"@, path),
        inventor_version_field("inventorversion"@, path),
        contains(path, "workspace"@) ==> workspace_field("path"@, path) && workspace_field(
            "location"@,
            path,
        ),
{
}

proof fn lemma_named_fields_apart(path: Seq<char>)
    ensures
        !workspace_field("library"@, path),
        !workspace_field("librarypath"@, path),
        !workspace_field("contentcenter"@, path),
        !workspace_field("contentcenterpath"@, path),
        !library_field("contentcenter"@, path),
        !library_field("contentcenterpath"@, path),
        !workspace_field("projectname"@, path),
        !library_field("projectname"@, path),
        !content_center_field("projectname"@, path),
{
    reveal_strlit("workspace");
    reveal_strlit("workspacepath");
    reveal_strlit("library");
    reveal_strlit("librarypath");
    reveal_strlit("contentcenter");
    reveal_strlit("contentcenterpath");
    reveal_strlit("projectname");
    reveal_strlit("path");
    reveal_strlit("location");
    assert("library"@[0] != "workspace"@[0] && "library"@[0] != "path"@[0] && "library"@[0]
        != "location"@[0] || "library"@.len() != "location"@.len());
    assert("librarypath"@.len() != "workspacepath"@.len() && "librarypath"@.len()
        != "workspace"@.len() && "librarypath"@.len() != "path"@.len() && "librarypath"@.len()
        != "location"@.len());
    assert("contentcenter"@.len() != "workspace"@.len() && "contentcenter"@[0]
        != "workspacepath"@[0] && "contentcenter"@.len() != "path"@.len()
        && "contentcenter"@.len() != "location"@.len() && "contentcenter"@.len()
        != "library"@.len() && "contentcenter"@.len() != "librarypath"@.len());
    assert("contentcenterpath"@.len() != "workspace"@.len() && "contentcenterpath"@.len()
        != "workspacepath"@.len() && "contentcenterpath"@.len() != "path"@.len()
        && "contentcenterpath"@.len() != "location"@.len() && "contentcenterpath"@.len()
        != "library"@.len() && "contentcenterpath"@.len() != "librarypath"@.len());
    assert("projectname"@[0] != "workspace"@[0] && "projectname"@[0] != "workspacepath"@[0]
        && "projectname"@.len() != "path"@.len() && "projectname"@.len() != "location"@.len()
        && "projectname"@[0] != "library"@[0] && "projectname"@[0] != "librarypath"@[0]
        && "projectname"@[0] != "contentcenter"@[0] && "projectname"@[0]
        != "contentcenterpath"@[0]);
}

/// What one element with text does. An element named `Workspace` or `WorkspacePath` sets the
/// workspace to its trimmed text unless an earlier element already did; a set workspace is
/// never replaced. An element named `Library` adds its trimmed text to the library paths, and
/// one named `ContentCenter` to the content-center paths. An element named `ProjectName` sets
/// the name unless one is already set.
pub proof fn lemma_element_step(p: ParsedIpjView, n: XmlNodeView)
    ensures
        p.workspace_path is Some ==> ipj_step(p, n).workspace_path == p.workspace_path,
        n.is_element && trimmed_text(n.text) is Some && p.workspace_path is None && (alnum_lower(
            n.name,
        ) == "workspace"@ || alnum_lower(n.name) == "workspacepath"@) ==> ipj_step(
            p,
            n,
        ).workspace_path == trimmed_text(n.text),
        n.is_element && trimmed_text(n.text) is Some && (alnum_lower(n.name) == "library"@
            || alnum_lower(n.name) == "librarypath"@) ==> ipj_step(p, n).library_paths.contains(
            trimmed_text(n.text)->0,
        ),
        n.is_element && trimmed_text(n.text) is Some && (alnum_lower(n.name) == "contentcenter"@
            || alnum_lower(n.name) == "contentcenterpath"@) ==> ipj_step(
            p,
            n,
        ).content_center_paths.contains(trimmed_text(n.text)->0),
        n.is_element && trimmed_text(n.text) is Some && p.project_name is None && alnum_lower(
            n.name,
        ) == "projectname"@ ==> ipj_step(p, n).project_name == trimmed_text(n.text),
{
    let path = node_path(n.ancestors);
    lemma_field_names(path);
    lemma_named_fields_apart(path);
    if n.is_element {
        if let Some(t) = trimmed_text(n.text) {
            assert(push_unique_spec(p.library_paths, t).contains(t)) by {
                if !p.library_paths.contains(t) {
                    assert(p.library_paths.push(t)[p.library_paths.len() as int] == t);
                }
            }
            assert(push_unique_spec(p.content_center_paths, t).contains(t)) by {
                if !p.content_center_paths.contains(t) {
                    assert(p.content_center_paths.push(t)[p.content_center_paths.len() as int]
                        == t);
                }
            }
        }
    }
}

/// The workspace is the trimmed text of the first element named `Workspace` or
/// `WorkspacePath` (or a workspace location) that has text: once such an element comes,
/// later elements do not change it.
pub proof fn lemma_first_workspace_wins(nodes: Seq<XmlNodeView>, i: int)
    requires
        0 <= i < nodes.len(),
        nodes[i].is_element,
        trimmed_text(nodes[i].text) is Some,
        alnum_lower(nodes[i].name) == "workspace"@ || alnum_lower(nodes[i].name)
            == "workspacepath"@,
        ipj_fold(nodes.take(i)).workspace_path is None,
    ensures
        ipj_fold(nodes).workspace_path == trimmed_text(nodes[i].text),
{
    assert(nodes.take(i + 1).drop_last() =~= nodes.take(i));
    assert(nodes.take(i + 1).last() == nodes[i]);
    lemma_element_step(ipj_fold(nodes.take(i)), nodes[i]);
    lemma_first_value_kept(nodes, i + 1);
}

/// Normalising a name twice changes nothing more.
pub proof fn lemma_normalize_name_idempotent(s: Seq<char>)
    ensures
        alnum_lower(alnum_lower(s)) == alnum_lower(s),
    decreases s.len(),
{
    if s.len() > 0 {
        lemma_normalize_name_idempotent(s.drop_last());
        let r = alnum_lower(s.drop_last());
        if is_ascii_alnum(s.last()) {
            let c = ascii_lower(s.last());
            assert(r.push(c).drop_last() =~= r);
            assert(is_ascii_alnum(c));
            assert(ascii_lower(c) == c);
        }
    }
}

} // verus!
