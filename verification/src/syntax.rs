//! The syntax tree of a configuration text.
//!
//! The parser is `rnix`. Its tree is handed over as a walk in document
//! order: one step on entering a node, one on entering a token, one on
//! leaving either. From the walk this module builds the list of the
//! tree's elements, each with its depth, and answers questions about it:
//! where a subtree ends, which nodes are the children of a node, and what
//! text a range of elements spells.
//!
//! The parser and its tree need stack for every level of depth. Before a
//! text is parsed its tokens are therefore counted for what they may
//! cost in depth, and a text that may cost too much is not parsed.
use vstd::prelude::*;
use vstd::string::StringExecFns;

verus! {

/// `rnix::SyntaxKind`, the kind of a node or token, declared with its
/// variants so that the code here can tell them apart.
#[verifier::external_type_specification]
pub struct ExSyntaxKind(rnix::SyntaxKind);

/// One step of a walk over a syntax tree.
#[derive(Debug)]
pub enum WalkStep {
    /// A node is entered.
    Node(rnix::SyntaxKind),
    /// A token is entered; it spells the given text.
    Token(rnix::SyntaxKind, String),
    /// The node or token entered last and not yet left is left.
    Leave,
}

/// A step of a walk, as a value of specifications.
pub enum WalkStepView {
    /// A node is entered.
    Node(rnix::SyntaxKind),
    /// A token is entered.
    Token(rnix::SyntaxKind, Seq<char>),
    /// A node or token is left.
    Leave,
}

impl View for WalkStep {
    type V = WalkStepView;

    open spec fn view(&self) -> WalkStepView {
        match *self {
            WalkStep::Node(kind) => WalkStepView::Node(kind),
            WalkStep::Token(kind, text) => WalkStepView::Token(kind, text@),
            WalkStep::Leave => WalkStepView::Leave,
        }
    }
}

/// A walk as a value of specifications.
pub type Walk = Seq<WalkStepView>;

/// The views of the steps of a walk.
pub open spec fn walk_view(steps: Seq<WalkStep>) -> Walk {
    steps.map_values(|step: WalkStep| step@)
}

/// What `rnix` makes of a text: the walk over the syntax tree and the
/// number of errors that the parser reports.
pub uninterp spec fn nix_parse(text: Seq<char>) -> (Walk, nat);

/// One element of a syntax tree: a node or a token.
#[derive(Debug)]
pub struct Element {
    /// The element's kind.
    pub kind: rnix::SyntaxKind,
    /// Whether it is a token.
    pub token: bool,
    /// How many nodes enclose it.
    pub depth: usize,
    /// The text that a token spells; empty for a node.
    pub text: String,
}

/// An element as a value of specifications.
pub struct ElementView {
    /// The element's kind.
    pub kind: rnix::SyntaxKind,
    /// Whether it is a token.
    pub token: bool,
    /// How many nodes enclose it.
    pub depth: nat,
    /// The text that a token spells; empty for a node.
    pub text: Seq<char>,
}

impl View for Element {
    type V = ElementView;

    open spec fn view(&self) -> ElementView {
        ElementView { kind: self.kind, token: self.token, depth: self.depth as nat, text: self.text@ }
    }
}

/// The elements of a tree in document order.
pub type Tree = Seq<ElementView>;

/// The views of a list of elements.
pub open spec fn tree_view(elements: Seq<Element>) -> Tree {
    elements.map_values(|element: Element| element@)
}

/// How many of the elements entered in the first `n` steps of a walk are
/// not yet left: entries minus leaves.
pub open spec fn open_after(walk: Walk, n: int) -> int
    decreases n,
{
    if n <= 0 {
        0
    } else if walk[n - 1] is Leave {
        open_after(walk, n - 1) - 1
    } else {
        open_after(walk, n - 1) + 1
    }
}

/// No step of the walk leaves more than was entered.
pub open spec fn leaves_match(walk: Walk) -> bool {
    forall|n: int| 0 <= n <= walk.len() ==> open_after(walk, n) >= 0
}

/// The elements that the first `n` steps of a walk enter, each at the
/// depth at which it is entered.
pub open spec fn tree_of(walk: Walk, n: int) -> Tree
    decreases n,
{
    if n <= 0 {
        Seq::empty()
    } else {
        let before = tree_of(walk, n - 1);
        let depth = open_after(walk, n - 1) as nat;
        match walk[n - 1] {
            WalkStepView::Node(kind) => before.push(
                ElementView { kind, token: false, depth, text: Seq::empty() },
            ),
            WalkStepView::Token(kind, text) => before.push(ElementView { kind, token: true, depth, text }),
            WalkStepView::Leave => before,
        }
    }
}

/// The text that the tokens among elements `lo` to `hi - 1` spell.
pub open spec fn flat_text(tree: Tree, lo: int, hi: int) -> Seq<char>
    decreases hi - lo,
{
    if lo >= hi {
        Seq::empty()
    } else if tree[hi - 1].token {
        flat_text(tree, lo, hi - 1) + tree[hi - 1].text
    } else {
        flat_text(tree, lo, hi - 1)
    }
}

/// The first index from `from` on whose element is not deeper than
/// `depth`, or the tree's length: where a scope entered at `depth` ends.
pub open spec fn scope_end(tree: Tree, depth: nat, from: int) -> int
    decreases tree.len() - from,
{
    if from < 0 || from >= tree.len() {
        tree.len() as int
    } else if tree[from].depth <= depth {
        from
    } else {
        scope_end(tree, depth, from + 1)
    }
}

/// The index after the last element of the subtree of element `i`.
pub open spec fn subtree_end(tree: Tree, i: int) -> int {
    scope_end(tree, tree[i].depth, i + 1)
}

/// The nodes at depth `depth + 1` from `from` to the end of the scope
/// entered at `depth`.
pub open spec fn nodes_in_scope(tree: Tree, depth: nat, from: int) -> Seq<int>
    decreases tree.len() - from,
{
    if from < 0 || from >= tree.len() || tree[from].depth <= depth {
        Seq::empty()
    } else if tree[from].depth == depth + 1 && !tree[from].token {
        seq![from] + nodes_in_scope(tree, depth, from + 1)
    } else {
        nodes_in_scope(tree, depth, from + 1)
    }
}

/// The nodes that are children of element `i`, in document order.
pub open spec fn child_nodes(tree: Tree, i: int) -> Seq<int> {
    nodes_in_scope(tree, tree[i].depth, i + 1)
}

/// The text that the subtree of element `i` spells.
pub open spec fn subtree_text(tree: Tree, i: int) -> Seq<char> {
    if tree[i].token {
        tree[i].text
    } else {
        flat_text(tree, i + 1, subtree_end(tree, i))
    }
}

/// A character that may stand in a path: a letter, a digit, or one of
/// `_ . + - / <`. Where a token begins with one of these, the tokenizer
/// looks ahead over all that follow without a break, to see whether a
/// path begins there.
pub open spec fn is_path_char(c: char) -> bool {
    ('a' <= c && c <= 'z') || ('A' <= c && c <= 'Z') || ('0' <= c && c <= '9') || c == '_' || c == '.'
        || c == '+' || c == '-' || c == '/' || c == '<'
}

/// How many characters of paths stand without a break right before the
/// place `n` of a text.
pub open spec fn run_before(text: Seq<char>, n: int) -> nat
    decreases n,
{
    if n <= 0 || !is_path_char(text[n - 1]) {
        0
    } else {
        run_before(text, n - 1) + 1
    }
}

/// The most characters that a text may have and still be split into
/// tokens.
pub const MAX_TEXT_LEN: usize = 1_048_576;

/// The most characters of paths that may stand without a break in a text
/// that is split into tokens.
pub const MAX_PATH_RUN: usize = 2_048;

/// The text is no longer, and holds no longer run of characters of
/// paths, than the tokenizer is trusted with. The tokenizer may look
/// ahead over a whole run for each token that begins in it; with runs
/// and text so bounded, the time that it takes stays bounded by their
/// product.
pub open spec fn within_scan_budget(text: Seq<char>) -> bool {
    &&& text.len() <= MAX_TEXT_LEN
    &&& forall|n: int| 0 <= n <= text.len() ==> #[trigger] run_before(text, n) <= MAX_PATH_RUN
}

/// Computes [`is_path_char`].
pub fn path_char(c: char) -> (path: bool)
    ensures
        path == is_path_char(c),
{
    (c >= 'a' && c <= 'z') || (c >= 'A' && c <= 'Z') || (c >= '0' && c <= '9') || c == '_' || c == '.'
        || c == '+' || c == '-' || c == '/' || c == '<'
}

/// Computes [`within_scan_budget`].
pub fn fits_scan_budget(text: &str) -> (fits: bool)
    ensures
        fits == within_scan_budget(text@),
{
    let mut seen: usize = 0;
    let mut run: usize = 0;
    for c in it: text.chars()
        invariant
            it.seq() == text@,
            seen == it.index(),
            seen <= MAX_TEXT_LEN,
            run == run_before(text@, it.index() as int),
            forall|n: int| 0 <= n <= it.index() ==> #[trigger] run_before(text@, n) <= MAX_PATH_RUN,
    {
        if seen == MAX_TEXT_LEN {
            return false;
        }
        seen += 1;
        if path_char(c) {
            if run == MAX_PATH_RUN {
                assert(run_before(text@, it.index() + 1) > MAX_PATH_RUN);
                return false;
            }
            run += 1;
        } else {
            run = 0;
        }
    }
    true
}

/// What `rnix` makes of a text in its first pass: the kinds of the
/// tokens, in order. The parser reads these tokens and nothing else.
pub uninterp spec fn nix_tokens(text: Seq<char>) -> Seq<rnix::SyntaxKind>;

/// What a token of a kind may cost in depth.
///
/// The parser counts how deep it is in expressions within expressions,
/// and gives up in good time. Three things it does not count. It calls
/// itself, without counting, on the opening of a list, on a unary minus
/// or negation, after one of the operators `->`, `//`, `++` and `<|`, and
/// after an `or`. In a loop it wraps all that came before in a new node
/// for each further argument of an application, which can begin with a
/// name, a number, a path, a string or an opening bracket, and for each
/// further operator. And the tree is afterwards walked and freed by
/// functions that call themselves once for each level of it. A token of
/// the first group costs three, one of the second group one: that is how
/// their needs of stack compare. Every other token, and with it every
/// comment and all that stands inside a string, is free.
pub open spec fn depth_cost(kind: rnix::SyntaxKind) -> nat {
    match kind {
        rnix::SyntaxKind::TOKEN_L_BRACK => 3,
        rnix::SyntaxKind::TOKEN_SUB => 3,
        rnix::SyntaxKind::TOKEN_INVERT => 3,
        rnix::SyntaxKind::TOKEN_IMPLICATION => 3,
        rnix::SyntaxKind::TOKEN_UPDATE => 3,
        rnix::SyntaxKind::TOKEN_CONCAT => 3,
        rnix::SyntaxKind::TOKEN_PIPE_LEFT => 3,
        rnix::SyntaxKind::TOKEN_OR => 3,
        rnix::SyntaxKind::TOKEN_IDENT => 1,
        rnix::SyntaxKind::TOKEN_CUR_POS => 1,
        rnix::SyntaxKind::TOKEN_REC => 1,
        rnix::SyntaxKind::TOKEN_L_BRACE => 1,
        rnix::SyntaxKind::TOKEN_L_PAREN => 1,
        rnix::SyntaxKind::TOKEN_STRING_START => 1,
        rnix::SyntaxKind::TOKEN_FLOAT => 1,
        rnix::SyntaxKind::TOKEN_INTEGER => 1,
        rnix::SyntaxKind::TOKEN_PATH_ABS => 1,
        rnix::SyntaxKind::TOKEN_PATH_REL => 1,
        rnix::SyntaxKind::TOKEN_PATH_HOME => 1,
        rnix::SyntaxKind::TOKEN_PATH_SEARCH => 1,
        rnix::SyntaxKind::TOKEN_URI => 1,
        rnix::SyntaxKind::TOKEN_ADD => 1,
        rnix::SyntaxKind::TOKEN_MUL => 1,
        rnix::SyntaxKind::TOKEN_DIV => 1,
        rnix::SyntaxKind::TOKEN_AND_AND => 1,
        rnix::SyntaxKind::TOKEN_OR_OR => 1,
        rnix::SyntaxKind::TOKEN_EQUAL => 1,
        rnix::SyntaxKind::TOKEN_NOT_EQUAL => 1,
        rnix::SyntaxKind::TOKEN_LESS => 1,
        rnix::SyntaxKind::TOKEN_LESS_OR_EQ => 1,
        rnix::SyntaxKind::TOKEN_MORE => 1,
        rnix::SyntaxKind::TOKEN_MORE_OR_EQ => 1,
        rnix::SyntaxKind::TOKEN_PIPE_RIGHT => 1,
        rnix::SyntaxKind::TOKEN_QUESTION => 1,
        _ => 0,
    }
}

/// What the first `n` tokens may cost in depth, all together.
pub open spec fn total_cost(kinds: Seq<rnix::SyntaxKind>, n: int) -> nat
    decreases n,
{
    if n <= 0 {
        0
    } else {
        total_cost(kinds, n - 1) + depth_cost(kinds[n - 1])
    }
}

/// The most that the tokens of a text may cost and the text still be
/// parsed: with so much, and with expressions within expressions as deep
/// as the parser goes, parsing keeps within the two mebibytes of stack
/// that a thread has by default.
pub const MAX_DEPTH_COST: usize = 3072;

/// The tokens cost no more in depth than the parser is trusted with.
pub open spec fn within_depth_budget(kinds: Seq<rnix::SyntaxKind>) -> bool {
    total_cost(kinds, kinds.len() as int) <= MAX_DEPTH_COST
}

/// The cost grows with the number of tokens.
pub proof fn lemma_total_cost_grows(kinds: Seq<rnix::SyntaxKind>, m: int, n: int)
    requires
        m <= n,
    ensures
        total_cost(kinds, m) <= total_cost(kinds, n),
    decreases n - m,
{
    if m < n {
        lemma_total_cost_grows(kinds, m, n - 1);
    }
}

/// Computes [`depth_cost`].
pub fn cost_of(kind: rnix::SyntaxKind) -> (cost: usize)
    ensures
        cost == depth_cost(kind),
{
    match kind {
        rnix::SyntaxKind::TOKEN_L_BRACK => 3,
        rnix::SyntaxKind::TOKEN_SUB => 3,
        rnix::SyntaxKind::TOKEN_INVERT => 3,
        rnix::SyntaxKind::TOKEN_IMPLICATION => 3,
        rnix::SyntaxKind::TOKEN_UPDATE => 3,
        rnix::SyntaxKind::TOKEN_CONCAT => 3,
        rnix::SyntaxKind::TOKEN_PIPE_LEFT => 3,
        rnix::SyntaxKind::TOKEN_OR => 3,
        rnix::SyntaxKind::TOKEN_IDENT => 1,
        rnix::SyntaxKind::TOKEN_CUR_POS => 1,
        rnix::SyntaxKind::TOKEN_REC => 1,
        rnix::SyntaxKind::TOKEN_L_BRACE => 1,
        rnix::SyntaxKind::TOKEN_L_PAREN => 1,
        rnix::SyntaxKind::TOKEN_STRING_START => 1,
        rnix::SyntaxKind::TOKEN_FLOAT => 1,
        rnix::SyntaxKind::TOKEN_INTEGER => 1,
        rnix::SyntaxKind::TOKEN_PATH_ABS => 1,
        rnix::SyntaxKind::TOKEN_PATH_REL => 1,
        rnix::SyntaxKind::TOKEN_PATH_HOME => 1,
        rnix::SyntaxKind::TOKEN_PATH_SEARCH => 1,
        rnix::SyntaxKind::TOKEN_URI => 1,
        rnix::SyntaxKind::TOKEN_ADD => 1,
        rnix::SyntaxKind::TOKEN_MUL => 1,
        rnix::SyntaxKind::TOKEN_DIV => 1,
        rnix::SyntaxKind::TOKEN_AND_AND => 1,
        rnix::SyntaxKind::TOKEN_OR_OR => 1,
        rnix::SyntaxKind::TOKEN_EQUAL => 1,
        rnix::SyntaxKind::TOKEN_NOT_EQUAL => 1,
        rnix::SyntaxKind::TOKEN_LESS => 1,
        rnix::SyntaxKind::TOKEN_LESS_OR_EQ => 1,
        rnix::SyntaxKind::TOKEN_MORE => 1,
        rnix::SyntaxKind::TOKEN_MORE_OR_EQ => 1,
        rnix::SyntaxKind::TOKEN_PIPE_RIGHT => 1,
        rnix::SyntaxKind::TOKEN_QUESTION => 1,
        _ => 0,
    }
}

/// Computes [`within_depth_budget`].
pub fn fits_depth_budget(kinds: &Vec<rnix::SyntaxKind>) -> (fits: bool)
    ensures
        fits == within_depth_budget(kinds@),
{
    let mut spent: usize = 0;
    let mut i: usize = 0;
    while i < kinds.len()
        invariant
            i <= kinds@.len(),
            spent == total_cost(kinds@, i as int),
            spent <= MAX_DEPTH_COST,
        decreases kinds@.len() - i,
    {
        let cost = cost_of(kinds[i]);
        if cost > MAX_DEPTH_COST - spent {
            proof {
                lemma_total_cost_grows(kinds@, i + 1, kinds@.len() as int);
            }
            return false;
        }
        spent += cost;
        i += 1;
    }
    true
}

/// Splits a text into tokens with `rnix::tokenize` and gives the kind of
/// each, in order. The tokenizer goes through the text in a loop and
/// keeps its state in a list: it needs no more stack for a long or deep
/// text than for a short one.
///
/// The kinds are a function of the text alone, so they have a name.
/// Nothing more is claimed of them.
///
/// Where a token begins with a character of paths the tokenizer looks
/// ahead over the whole run of them, so that on a long text that is one
/// long run it would not end in any time worth the name: the text must
/// be within the scan budget.
#[verifier::external_body]
pub(crate) fn token_kinds(text: &str) -> (kinds: Vec<rnix::SyntaxKind>)
    requires
        within_scan_budget(text@),
    ensures
        kinds@ == nix_tokens(text@),
{
    rnix::tokenize(text).map(|token| token.0).collect()
}

/// Parses a text with `rnix::Root::parse` and walks the tree with
/// `preorder_with_tokens`. Each event of the walk becomes one step, with
/// the kind of the node or token and the token's text as `rnix` gives
/// them; the count is the length of the parser's error list.
///
/// The result is a function of the text alone, so it has a name. Nothing
/// more is claimed of it: what callers need of the walk they test.
///
/// The parser begins with `rnix::tokenize`, so the text must be within
/// the scan budget. On tokens that cost too much in depth, as
/// [`depth_cost`] counts it, the parser or the tree's own functions
/// would run out of stack: so the tokens of the text must be within the
/// depth budget.
#[verifier::external_body]
pub(crate) fn parse_walk(text: &str) -> (parsed: (Vec<WalkStep>, usize))
    requires
        within_scan_budget(text@),
        within_depth_budget(nix_tokens(text@)),
    ensures
        walk_view(parsed.0@) == nix_parse(text@).0,
        parsed.1 == nix_parse(text@).1,
{
    let parse = rnix::Root::parse(text);
    let steps = parse.syntax().preorder_with_tokens().map(
        |event| match event {
            rnix::WalkEvent::Enter(rnix::NodeOrToken::Node(node)) => WalkStep::Node(node.kind()),
            rnix::WalkEvent::Enter(rnix::NodeOrToken::Token(token)) => WalkStep::Token(
                token.kind(),
                token.text().to_string(),
            ),
            rnix::WalkEvent::Leave(_) => WalkStep::Leave,
        },
    ).collect();
    (steps, parse.errors().len())
}

/// Builds the list of elements of a walk, or `None` if a step leaves more
/// than was entered.
pub fn elements_of_walk(walk: &Vec<WalkStep>) -> (built: Option<Vec<Element>>)
    ensures
        built is Some <==> leaves_match(walk_view(walk@)),
        built matches Some(elements) ==> tree_view(elements@) == tree_of(
            walk_view(walk@),
            walk@.len() as int,
        ),
{
    let ghost steps = walk_view(walk@);
    let mut elements: Vec<Element> = Vec::new();
    let mut depth: usize = 0;
    let mut i: usize = 0;
    while i < walk.len()
        invariant
            i <= walk@.len(),
            steps == walk_view(walk@),
            depth == open_after(steps, i as int),
            depth <= i,
            forall|n: int| 0 <= n <= i ==> open_after(steps, n) >= 0,
            tree_view(elements@) == tree_of(steps, i as int),
        decreases walk@.len() - i,
    {
        let ghost before = elements@;
        match &walk[i] {
            WalkStep::Node(kind) => {
                elements.push(Element { kind: *kind, token: false, depth, text: String::new() });
                depth += 1;
            },
            WalkStep::Token(kind, text) => {
                elements.push(Element { kind: *kind, token: true, depth, text: text.clone() });
                depth += 1;
            },
            WalkStep::Leave => {
                if depth == 0 {
                    assert(open_after(steps, i + 1) < 0);
                    return None;
                }
                depth -= 1;
            },
        }
        proof {
            assert(steps[i as int] == walk@[i as int]@);
            assert(tree_view(elements@) =~= tree_of(steps, i + 1));
        }
        i += 1;
    }
    Some(elements)
}

/// The indices that a list of positions stands for.
pub open spec fn positions(found: Seq<usize>) -> Seq<int> {
    found.map_values(|at: usize| at as int)
}

/// The text of a range is the text of its front part followed by the text
/// of its back part.
pub proof fn lemma_flat_text_splits(tree: Tree, lo: int, mid: int, hi: int)
    requires
        lo <= mid <= hi,
    ensures
        flat_text(tree, lo, hi) == flat_text(tree, lo, mid) + flat_text(tree, mid, hi),
    decreases hi - mid,
{
    if mid < hi {
        lemma_flat_text_splits(tree, lo, mid, hi - 1);
        if tree[hi - 1].token {
            assert(flat_text(tree, lo, hi) =~= flat_text(tree, lo, mid) + flat_text(tree, mid, hi));
        }
    } else {
        assert(flat_text(tree, lo, hi) =~= flat_text(tree, lo, mid) + flat_text(tree, mid, hi));
    }
}

/// A scope that is searched from `from` ends at or after `from`, within
/// the tree, at an element that is not deeper than the scope, and holds
/// only deeper elements.
pub proof fn lemma_scope_end(tree: Tree, depth: nat, from: int)
    requires
        0 <= from <= tree.len(),
    ensures
        from <= scope_end(tree, depth, from) <= tree.len(),
        scope_end(tree, depth, from) < tree.len() ==> tree[scope_end(tree, depth, from)].depth <= depth,
        forall|k: int| from <= k < scope_end(tree, depth, from) ==> tree[k].depth > depth,
    decreases tree.len() - from,
{
    if from < tree.len() && tree[from].depth > depth {
        lemma_scope_end(tree, depth, from + 1);
    }
}

/// The nodes found in a scope lie in it, one level below its depth, in
/// rising order.
pub proof fn lemma_nodes_in_scope(tree: Tree, depth: nat, from: int)
    requires
        0 <= from <= tree.len(),
    ensures
        forall|k: int|
            0 <= k < nodes_in_scope(tree, depth, from).len() ==> {
                let at = #[trigger] nodes_in_scope(tree, depth, from)[k];
                &&& from <= at < scope_end(tree, depth, from)
                &&& !tree[at].token
                &&& tree[at].depth == depth + 1
            },
        forall|j: int, k: int|
            0 <= j < k < nodes_in_scope(tree, depth, from).len() ==> nodes_in_scope(tree, depth, from)[j]
                < nodes_in_scope(tree, depth, from)[k],
    decreases tree.len() - from,
{
    if from < tree.len() && tree[from].depth > depth {
        lemma_nodes_in_scope(tree, depth, from + 1);
        lemma_scope_end(tree, depth, from + 1);
        let rest = nodes_in_scope(tree, depth, from + 1);
        let all = nodes_in_scope(tree, depth, from);
        if tree[from].depth == depth + 1 && !tree[from].token {
            assert(all == seq![from] + rest);
            assert forall|k: int| 0 <= k < all.len() implies {
                let at = #[trigger] all[k];
                &&& from <= at < scope_end(tree, depth, from)
                &&& !tree[at].token
                &&& tree[at].depth == depth + 1
            } by {
                if k > 0 {
                    assert(all[k] == rest[k - 1]);
                }
            }
            assert forall|j: int, k: int| 0 <= j < k < all.len() implies all[j] < all[k] by {
                assert(all[k] == rest[k - 1]);
                if j > 0 {
                    assert(all[j] == rest[j - 1]);
                }
            }
        }
    }
}

/// Where the subtree of element `i` ends.
pub fn end_of_subtree(elements: &Vec<Element>, i: usize) -> (end: usize)
    requires
        i < elements@.len(),
    ensures
        end == subtree_end(tree_view(elements@), i as int),
        i < end <= elements@.len(),
{
    let ghost tree = tree_view(elements@);
    let depth = elements[i].depth;
    let len = elements.len();
    let mut j: usize = i + 1;
    while j < len && elements[j].depth > depth
        invariant
            i < j <= elements@.len(),
            len == elements@.len(),
            tree == tree_view(elements@),
            depth == tree[i as int].depth,
            scope_end(tree, depth as nat, i + 1) == scope_end(tree, depth as nat, j as int),
        decreases elements@.len() - j,
    {
        j += 1;
    }
    j
}

/// The child nodes of element `i`, in document order.
pub fn children_of(elements: &Vec<Element>, i: usize) -> (children: Vec<usize>)
    requires
        i < elements@.len(),
    ensures
        positions(children@) == child_nodes(tree_view(elements@), i as int),
        forall|k: int|
            0 <= k < children@.len() ==> {
                &&& i < #[trigger] children@[k] < elements@.len()
                &&& !elements@[children@[k] as int].token
                &&& elements@[children@[k] as int].depth == elements@[i as int].depth + 1
            },
{
    let ghost tree = tree_view(elements@);
    let depth = elements[i].depth;
    let len = elements.len();
    let mut children: Vec<usize> = Vec::new();
    let mut j: usize = i + 1;
    while j < len && elements[j].depth > depth
        invariant
            i < j <= elements@.len(),
            len == elements@.len(),
            tree == tree_view(elements@),
            depth == tree[i as int].depth,
            child_nodes(tree, i as int) == positions(children@) + nodes_in_scope(
                tree,
                depth as nat,
                j as int,
            ),
            forall|k: int|
                0 <= k < children@.len() ==> {
                    &&& i < #[trigger] children@[k] < elements@.len()
                    &&& !elements@[children@[k] as int].token
                    &&& elements@[children@[k] as int].depth == depth + 1
                },
        decreases elements@.len() - j,
    {
        if elements[j].depth - depth == 1 && !elements[j].token {
            let ghost before = children@;
            children.push(j);
            assert(positions(children@) =~= positions(before) + seq![j as int]);
            assert(positions(children@) + nodes_in_scope(tree, depth as nat, j + 1) =~= positions(before)
                + (seq![j as int] + nodes_in_scope(tree, depth as nat, j + 1)));
        }
        j += 1;
    }
    assert(positions(children@) + Seq::<int>::empty() =~= positions(children@));
    children
}

/// The text that elements `lo` to `hi - 1` spell.
pub fn text_of_range(elements: &Vec<Element>, lo: usize, hi: usize) -> (text: String)
    requires
        lo <= hi <= elements@.len(),
    ensures
        text@ == flat_text(tree_view(elements@), lo as int, hi as int),
{
    let ghost tree = tree_view(elements@);
    let mut text = String::new();
    let mut k: usize = lo;
    while k < hi
        invariant
            lo <= k <= hi <= elements@.len(),
            tree == tree_view(elements@),
            text@ == flat_text(tree, lo as int, k as int),
        decreases hi - k,
    {
        if elements[k].token {
            text.append(elements[k].text.as_str());
        }
        k += 1;
    }
    text
}

/// The text that the subtree of element `i` spells.
pub fn text_of_subtree(elements: &Vec<Element>, i: usize) -> (text: String)
    requires
        i < elements@.len(),
    ensures
        text@ == subtree_text(tree_view(elements@), i as int),
{
    if elements[i].token {
        elements[i].text.clone()
    } else {
        let end = end_of_subtree(elements, i);
        text_of_range(elements, i + 1, end)
    }
}

} // verus!
