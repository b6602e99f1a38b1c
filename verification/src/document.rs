//! A parsed configuration document, and the registry of hosts in the
//! cluster document.
//!
//! A document is a text together with its syntax tree. It is made by
//! parsing, never edited: a change of the text makes a new document.
//!
//! The cluster document holds the registry of hosts at a fixed place: the
//! first child node of the first child node of the root must be a
//! binding, and what it binds must be an attribute set. That set is the
//! registry, and each binding in it is the entry of one host.
use vstd::prelude::*;
use crate::text::texts;
use crate::syntax::{
    child_nodes, children_of, elements_of_walk, end_of_subtree, fits_depth_budget,
    fits_scan_budget, flat_text, leaves_match, lemma_nodes_in_scope, lemma_scope_end, nix_parse,
    nix_tokens, parse_walk, positions, subtree_end, subtree_text, text_of_range,
    text_of_subtree, token_kinds, tree_of, tree_view, walk_view, within_depth_budget,
    within_scan_budget, Element, Tree, Walk, WalkStep,
};

verus! {

/// Why a text is not a document.
#[derive(Clone, Copy, Debug, PartialEq, Eq, Structural)]
pub enum ParseError {
    /// The text is longer, or holds a longer run of characters of paths,
    /// than the tokenizer is trusted with; the text was not read.
    TooLong,
    /// The tokens of the text may cost more in depth than the parser is
    /// trusted with; the text was not parsed.
    TooNested,
    /// The parser reports errors.
    Syntax,
    /// The parser's tree does not spell the text.
    BrokenTree,
}

/// The cluster document has no registry where one is expected.
#[derive(Clone, Copy, Debug, PartialEq, Eq, Structural)]
pub struct ShapeError {}

/// The parts that elements play in a cluster document.
#[derive(Clone, Copy, Debug, PartialEq, Eq, Structural)]
pub enum SyntaxClass {
    /// The root of a tree.
    Root,
    /// An attribute set.
    AttrSet,
    /// A binding of a path of attributes to a value.
    Binding,
    /// The path of attributes that a binding binds.
    AttrPath,
    /// A closing brace.
    RightBrace,
    /// Anything else.
    Other,
}

/// The part that an element of a kind plays.
pub open spec fn class_of(kind: rnix::SyntaxKind) -> SyntaxClass {
    match kind {
        rnix::SyntaxKind::NODE_ROOT => SyntaxClass::Root,
        rnix::SyntaxKind::NODE_ATTR_SET => SyntaxClass::AttrSet,
        rnix::SyntaxKind::NODE_ATTRPATH_VALUE => SyntaxClass::Binding,
        rnix::SyntaxKind::NODE_ATTRPATH => SyntaxClass::AttrPath,
        rnix::SyntaxKind::TOKEN_R_BRACE => SyntaxClass::RightBrace,
        _ => SyntaxClass::Other,
    }
}

/// Computes [`class_of`].
pub fn classify(kind: rnix::SyntaxKind) -> (class: SyntaxClass)
    ensures
        class == class_of(kind),
{
    match kind {
        rnix::SyntaxKind::NODE_ROOT => SyntaxClass::Root,
        rnix::SyntaxKind::NODE_ATTR_SET => SyntaxClass::AttrSet,
        rnix::SyntaxKind::NODE_ATTRPATH_VALUE => SyntaxClass::Binding,
        rnix::SyntaxKind::NODE_ATTRPATH => SyntaxClass::AttrPath,
        rnix::SyntaxKind::TOKEN_R_BRACE => SyntaxClass::RightBrace,
        _ => SyntaxClass::Other,
    }
}

/// A document as a value of specifications: the text and its tree.
pub struct DocumentView {
    /// The text.
    pub text: Seq<char>,
    /// The elements of the syntax tree.
    pub tree: Tree,
}

/// What a text, its tokens and the parser's answer to it make: a
/// document, if the text is within the scan budget, the tokens are
/// within the depth budget, the parser reports no error, no step of the
/// walk leaves more than was entered, and the tokens of the tree spell
/// the text.
pub open spec fn document_of(text: Seq<char>, kinds: Seq<rnix::SyntaxKind>, parsed: (Walk, nat)) -> Result<
    DocumentView,
    ParseError,
> {
    let tree = tree_of(parsed.0, parsed.0.len() as int);
    if !within_scan_budget(text) {
        Err(ParseError::TooLong)
    } else if !within_depth_budget(kinds) {
        Err(ParseError::TooNested)
    } else if parsed.1 > 0 {
        Err(ParseError::Syntax)
    } else if !leaves_match(parsed.0) {
        Err(ParseError::BrokenTree)
    } else if flat_text(tree, 0, tree.len() as int) != text {
        Err(ParseError::BrokenTree)
    } else {
        Ok(DocumentView { text, tree })
    }
}

/// What parsing makes of a text: what [`document_of`] makes of the text,
/// of the tokens that the tokenizer finds in it, and of the parser's
/// answer.
pub open spec fn parsed_document(text: Seq<char>) -> Result<DocumentView, ParseError> {
    document_of(text, nix_tokens(text), nix_parse(text))
}

/// Where the registry stands in a tree.
pub struct RegistryPlace {
    /// The binding at the fixed place: the cluster root.
    pub binding: int,
    /// The attribute set that it binds: the registry.
    pub registry: int,
    /// The registry's closing brace.
    pub brace: int,
}

/// The place of the registry in a tree, if the tree has the expected
/// shape.
pub open spec fn locate(tree: Tree) -> Option<RegistryPlace> {
    if tree.len() == 0 || tree[0].token || class_of(tree[0].kind) != SyntaxClass::Root {
        None
    } else if child_nodes(tree, 0).len() == 0 {
        None
    } else {
        let top = child_nodes(tree, 0)[0];
        if child_nodes(tree, top).len() == 0 {
            None
        } else {
            let binding = child_nodes(tree, top)[0];
            let parts = child_nodes(tree, binding);
            if class_of(tree[binding].kind) != SyntaxClass::Binding || parts.len() != 2 {
                None
            } else if class_of(tree[parts[0]].kind) != SyntaxClass::AttrPath || class_of(
                tree[parts[1]].kind,
            ) != SyntaxClass::AttrSet {
                None
            } else {
                let registry = parts[1];
                let brace = subtree_end(tree, registry) - 1;
                if brace > registry && tree[brace].token && class_of(tree[brace].kind)
                    == SyntaxClass::RightBrace && tree[brace].depth == tree[registry].depth + 1 {
                    Some(RegistryPlace { binding, registry, brace })
                } else {
                    None
                }
            }
        }
    }
}

/// The key of an entry: the text of the path that the binding binds.
pub open spec fn entry_key(tree: Tree, entry: int) -> Option<Seq<char>> {
    let parts = child_nodes(tree, entry);
    if class_of(tree[entry].kind) == SyntaxClass::Binding && parts.len() > 0 && class_of(
        tree[parts[0]].kind,
    ) == SyntaxClass::AttrPath {
        Some(subtree_text(tree, parts[0]))
    } else {
        None
    }
}

/// The keys of a list of entries, if each of them has one.
pub open spec fn keys_of(tree: Tree, entries: Seq<int>) -> Option<Seq<Seq<char>>>
    decreases entries.len(),
{
    if entries.len() == 0 {
        Some(Seq::empty())
    } else {
        match (keys_of(tree, entries.drop_last()), entry_key(tree, entries.last())) {
            (Some(keys), Some(key)) => Some(keys.push(key)),
            _ => None,
        }
    }
}

/// The keys of the registry's entries in document order, if the tree has
/// a registry and all its child nodes are bindings.
pub open spec fn registry_keys(tree: Tree) -> Option<Seq<Seq<char>>> {
    match locate(tree) {
        Some(place) => keys_of(tree, child_nodes(tree, place.registry)),
        None => None,
    }
}

impl DocumentView {
    /// The tokens of the tree spell the text.
    pub open spec fn spells_text(self) -> bool {
        flat_text(self.tree, 0, self.tree.len() as int) == self.text
    }

    /// Parsing the document's text gives the document.
    pub open spec fn faithful(self) -> bool {
        parsed_document(self.text) == Ok::<DocumentView, ParseError>(self)
    }
}

/// The cluster root of a document.
#[derive(Clone, Copy, Debug)]
pub struct ClusterRoot {
    /// The index of the binding at the fixed place.
    pub binding: usize,
    /// The index of the attribute set that it binds: the registry.
    pub registry: usize,
    /// The index of the registry's closing brace.
    pub brace: usize,
}

impl View for ClusterRoot {
    type V = RegistryPlace;

    open spec fn view(&self) -> RegistryPlace {
        RegistryPlace { binding: self.binding as int, registry: self.registry as int, brace: self.brace as int }
    }
}

/// A parsed configuration document.
#[derive(Debug)]
pub struct ConfigDocument {
    text: String,
    elements: Vec<Element>,
}

impl View for ConfigDocument {
    type V = DocumentView;

    closed spec fn view(&self) -> DocumentView {
        DocumentView { text: self.text@, tree: tree_view(self.elements@) }
    }
}

impl ConfigDocument {
    #[verifier::type_invariant]
    spec fn inv(self) -> bool {
        self@.spells_text()
    }

    /// Makes a document of a text, of the kinds of its tokens and of what
    /// the parser answered to it.
    pub fn from_walk(text: String, kinds: &Vec<rnix::SyntaxKind>, walk: &Vec<WalkStep>, errors: usize) -> (made:
        Result<ConfigDocument, ParseError>)
        ensures
            match made {
                Ok(document) => document_of(text@, kinds@, (walk_view(walk@), errors as nat)) == Ok::<
                    DocumentView,
                    ParseError,
                >(document@),
                Err(error) => document_of(text@, kinds@, (walk_view(walk@), errors as nat)) == Err::<
                    DocumentView,
                    ParseError,
                >(error),
            },
    {
        if !fits_scan_budget(text.as_str()) {
            return Err(ParseError::TooLong);
        }
        if !fits_depth_budget(kinds) {
            return Err(ParseError::TooNested);
        }
        if errors > 0 {
            return Err(ParseError::Syntax);
        }
        let elements = match elements_of_walk(walk) {
            Some(elements) => elements,
            None => {
                return Err(ParseError::BrokenTree);
            },
        };
        let spelled = text_of_range(&elements, 0, elements.len());
        if spelled != text {
            return Err(ParseError::BrokenTree);
        }
        Ok(ConfigDocument { text, elements })
    }

    /// Parses a text.
    ///
    /// A text within the scan budget is split into tokens, and parsed if
    /// these are within the depth budget. What the tokenizer and the
    /// parser make of a text are [`nix_tokens`] and [`nix_parse`]; the
    /// result is what [`ConfigDocument::from_walk`] makes of them. A
    /// document that comes back is faithful: parsing its text gives it
    /// again.
    pub fn parse(text: &str) -> (made: Result<ConfigDocument, ParseError>)
        ensures
            match made {
                Ok(document) => parsed_document(text@) == Ok::<DocumentView, ParseError>(document@)
                    && document@.text == text@ && document@.faithful(),
                Err(error) => parsed_document(text@) == Err::<DocumentView, ParseError>(error),
            },
    {
        if !fits_scan_budget(text) {
            return Err(ParseError::TooLong);
        }
        let kinds = token_kinds(text);
        if !fits_depth_budget(&kinds) {
            return Err(ParseError::TooNested);
        }
        let (walk, errors) = parse_walk(text);
        ConfigDocument::from_walk(text.to_owned(), &kinds, &walk, errors)
    }

    /// Serialises the document: its text, character for character.
    pub fn serialize(&self) -> (text: String)
        ensures
            text@ == self@.text,
    {
        self.text.clone()
    }

    /// The text of the document.
    pub fn text(&self) -> (text: &str)
        ensures
            text@ == self@.text,
    {
        self.text.as_str()
    }

    /// The elements of the document's tree.
    pub fn elements(&self) -> (elements: &Vec<Element>)
        ensures
            tree_view(elements@) == self@.tree,
            self@.spells_text(),
    {
        proof {
            use_type_invariant(self);
        }
        &self.elements
    }

    /// Finds the cluster root, or reports that the document has not the
    /// shape of a cluster document.
    pub fn locate_cluster_root(&self) -> (found: Result<ClusterRoot, ShapeError>)
        ensures
            match found {
                Ok(root) => locate(self@.tree) == Some(root@),
                Err(_) => locate(self@.tree) is None,
            },
    {
        locate_in(&self.elements)
    }

    /// The keys of the hosts in the registry, in document order.
    pub fn host_keys(&self) -> (found: Result<Vec<String>, ShapeError>)
        ensures
            match found {
                Ok(keys) => registry_keys(self@.tree) == Some(texts(keys@)),
                Err(_) => registry_keys(self@.tree) is None,
            },
    {
        let root = match locate_in(&self.elements) {
            Ok(root) => root,
            Err(error) => {
                return Err(error);
            },
        };
        proof {
            lemma_place_is_in_tree(self@.tree);
        }
        keys_in(&self.elements, root.registry)
    }
}

/// The indices of a place lie in the tree.
pub proof fn lemma_place_is_in_tree(tree: Tree)
    ensures
        locate(tree) matches Some(place) ==> 0 < place.binding < place.registry < place.brace < tree.len(),
{
    if let Some(place) = locate(tree) {
        let top = child_nodes(tree, 0)[0];
        lemma_nodes_in_scope(tree, tree[0].depth, 1);
        lemma_scope_end(tree, tree[0].depth, 1);
        lemma_nodes_in_scope(tree, tree[top].depth, top + 1);
        lemma_scope_end(tree, tree[top].depth, top + 1);
        lemma_nodes_in_scope(tree, tree[place.binding].depth, place.binding + 1);
        lemma_scope_end(tree, tree[place.binding].depth, place.binding + 1);
        lemma_scope_end(tree, tree[place.registry].depth, place.registry + 1);
    }
}

/// Finds the registry in a list of elements.
fn locate_in(elements: &Vec<Element>) -> (found: Result<ClusterRoot, ShapeError>)
    ensures
        match found {
            Ok(root) => locate(tree_view(elements@)) == Some(root@),
            Err(_) => locate(tree_view(elements@)) is None,
        },
{
    let ghost tree = tree_view(elements@);
    if elements.len() == 0 || elements[0].token {
        return Err(ShapeError {  });
    }
    match classify(elements[0].kind) {
        SyntaxClass::Root => {},
        _ => {
            return Err(ShapeError {  });
        },
    }
    let tops = children_of(elements, 0);
    assert(positions(tops@).len() == tops@.len());
    if tops.len() == 0 {
        return Err(ShapeError {  });
    }
    let top = tops[0];
    assert(positions(tops@)[0] == top);
    let firsts = children_of(elements, top);
    assert(positions(firsts@).len() == firsts@.len());
    if firsts.len() == 0 {
        return Err(ShapeError {  });
    }
    let binding = firsts[0];
    assert(positions(firsts@)[0] == binding);
    let parts = children_of(elements, binding);
    assert(positions(parts@).len() == parts@.len());
    match classify(elements[binding].kind) {
        SyntaxClass::Binding => {},
        _ => {
            return Err(ShapeError {  });
        },
    }
    if parts.len() != 2 {
        return Err(ShapeError {  });
    }
    assert(positions(parts@)[0] == parts@[0]);
    assert(positions(parts@)[1] == parts@[1]);
    match classify(elements[parts[0]].kind) {
        SyntaxClass::AttrPath => {},
        _ => {
            return Err(ShapeError {  });
        },
    }
    match classify(elements[parts[1]].kind) {
        SyntaxClass::AttrSet => {},
        _ => {
            return Err(ShapeError {  });
        },
    }
    let registry = parts[1];
    let end = end_of_subtree(elements, registry);
    let brace = end - 1;
    if brace <= registry || !elements[brace].token {
        return Err(ShapeError {  });
    }
    match classify(elements[brace].kind) {
        SyntaxClass::RightBrace => {},
        _ => {
            return Err(ShapeError {  });
        },
    }
    if elements[brace].depth == 0 || elements[brace].depth - 1 != elements[registry].depth {
        return Err(ShapeError {  });
    }
    Ok(ClusterRoot { binding, registry, brace })
}

/// The key of the entry at `entry`.
fn key_of_entry(elements: &Vec<Element>, entry: usize) -> (key: Option<String>)
    requires
        entry < elements@.len(),
    ensures
        match key {
            Some(key) => entry_key(tree_view(elements@), entry as int) == Some(key@),
            None => entry_key(tree_view(elements@), entry as int) is None,
        },
{
    match classify(elements[entry].kind) {
        SyntaxClass::Binding => {},
        _ => {
            return None;
        },
    }
    let parts = children_of(elements, entry);
    assert(positions(parts@).len() == parts@.len());
    if parts.len() == 0 {
        return None;
    }
    assert(positions(parts@)[0] == parts@[0]);
    match classify(elements[parts[0]].kind) {
        SyntaxClass::AttrPath => {},
        _ => {
            return None;
        },
    }
    Some(text_of_subtree(elements, parts[0]))
}

/// The keys of the entries of the set at `registry`.
fn keys_in(elements: &Vec<Element>, registry: usize) -> (found: Result<Vec<String>, ShapeError>)
    requires
        registry < elements@.len(),
    ensures
        match found {
            Ok(keys) => keys_of(
                tree_view(elements@),
                child_nodes(tree_view(elements@), registry as int),
            ) == Some(texts(keys@)),
            Err(_) => keys_of(tree_view(elements@), child_nodes(tree_view(elements@), registry as int))
                is None,
        },
{
    let ghost tree = tree_view(elements@);
    let entries = children_of(elements, registry);
    let ghost all = child_nodes(tree, registry as int);
    assert(positions(entries@).len() == entries@.len());
    let mut keys: Vec<String> = Vec::new();
    let mut k: usize = 0;
    assert(all.take(0) == Seq::<int>::empty());
    assert(texts(keys@) == Seq::<Seq<char>>::empty());
    while k < entries.len()
        invariant
            k <= entries@.len(),
            tree == tree_view(elements@),
            all == positions(entries@),
            all == child_nodes(tree, registry as int),
            all.len() == entries@.len(),
            forall|n: int| 0 <= n < entries@.len() ==> #[trigger] entries@[n] < elements@.len(),
            keys_of(tree, all.take(k as int)) == Some(texts(keys@)),
        decreases entries@.len() - k,
    {
        let ghost before = keys@;
        assert(all[k as int] == entries@[k as int]);
        assert(all.take(k + 1).drop_last() == all.take(k as int));
        assert(all.take(k + 1).last() == all[k as int]);
        match key_of_entry(elements, entries[k]) {
            Some(key) => {
                keys.push(key);
                assert(texts(keys@) == texts(before).push(key@));
            },
            None => {
                proof {
                    assert(entry_key(tree, all.take(k + 1).last()) is None);
                    assert(keys_of(tree, all.take(k + 1)) is None);
                    lemma_keys_need_every_entry(tree, all, k + 1);
                }
                return Err(ShapeError {  });
            },
        }
        k += 1;
    }
    assert(all.take(k as int) == all);
    Ok(keys)
}

/// If a front part of the entries has no keys, the whole has none.
pub proof fn lemma_keys_need_every_entry(tree: Tree, entries: Seq<int>, n: int)
    requires
        0 <= n <= entries.len(),
        keys_of(tree, entries.take(n)) is None,
    ensures
        keys_of(tree, entries) is None,
    decreases entries.len() - n,
{
    if n < entries.len() {
        assert(entries.take(n + 1).drop_last() == entries.take(n));
        lemma_keys_need_every_entry(tree, entries, n + 1);
    } else {
        assert(entries.take(n) == entries);
    }
}

/// What parsing makes of a text serialises to that text, and parsing the
/// serialised text gives the same document again.
pub proof fn lemma_parse_round_trips(text: Seq<char>)
    requires
        parsed_document(text) is Ok,
    ensures
        ({
            let document = parsed_document(text)->Ok_0;
            &&& document.text == text
            &&& document.spells_text()
            &&& document.faithful()
        }),
{
}

} // verus!
