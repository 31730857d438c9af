//! Reading typed values from the nodes of a document, and writing them
//! back.  A field of the file format often accepts more than one shape of
//! node; the functions of this module bring each to its one typed form.

use vstd::prelude::*;
use vstd::string::StringExecFns;
use crate::errors::{interpolation_error, Error, ErrorView};
use crate::node::{node_view, Node, NodeView};
use crate::raw_or::{
    displayed,
    lemma_display_then_raw,
    must_stay_raw,
    raw,
    raw_model,
    InterpolatableValue,
    RawOr,
    RawOrView,
};
use crate::sorted_map::{
    entries_map,
    keys_ascend,
    lemma_entries_map_keys,
    lemma_entries_map_values,
    sorted_entries,
    SortedMap,
};
use crate::text::{
    chars_of,
    decimal_text,
    find_char,
    has_char,
    index_of,
    push_decimal,
    same_text,
    string_of_range,
};

verus! {

/// Is `b` false?  A flag that is false is left out when a value is
/// written.
pub fn is_false(b: &bool) -> (r: bool)
    ensures
        r == !*b,
{
    !*b
}

/// The result of reading a value, as plain values.
pub open spec fn decode_result<T: DeepView>(r: Result<T, Error>) -> Result<T::V, ErrorView> {
    match r {
        Ok(v) => Ok(v.deep_view()),
        Err(e) => Err(e.deep_view()),
    }
}

/// The failure to find one of the shapes `expected`.
pub open spec fn wrong_shape<V>(expected: Seq<char>) -> Result<V, ErrorView> {
    Err(ErrorView::UnexpectedShape { expected })
}

/// Values that can be read from a node of a document.
pub trait FromNode: Sized + DeepView {
    /// What reading `node` yields.
    spec fn decoded(node: NodeView) -> Result<Self::V, ErrorView>;

    /// Read a value from `node`.
    fn from_node(node: &Node) -> (r: Result<Self, Error>)
        ensures
            decode_result(r) == Self::decoded(node.deep_view()),
    ;
}

/// Values that can be written as a node of a document.
pub trait ToNode: DeepView {
    /// The values that can be written: those whose leaves have a text.
    spec fn writable(v: Self::V) -> bool;

    /// The node that writes `v`.
    spec fn encoded(v: Self::V) -> NodeView;

    /// The node that writes this value.
    fn to_node(&self) -> (r: Node)
        requires
            Self::writable(self.deep_view()),
        ensures
            r.deep_view() == Self::encoded(self.deep_view()),
    ;

    /// Can this value be written?
    fn is_writable(&self) -> (r: bool)
        ensures
            r == Self::writable(self.deep_view()),
    ;
}

/// The text of a whole number.
pub open spec fn integer_text(i: i64) -> Seq<char> {
    if i < 0 {
        seq!['-'] + decimal_text((-i) as nat)
    } else {
        decimal_text(i as nat)
    }
}

/// The text of a scalar: the format takes `KEY: 1` for `KEY: "1"`, and
/// truth values and numbers are read as the text that writes them.
pub open spec fn scalar_text(node: NodeView) -> Option<Seq<char>> {
    match node {
        NodeView::Bool(b) => Some(
            if b {
                "true"@
            } else {
                "false"@
            },
        ),
        NodeView::Integer(i) => Some(integer_text(i)),
        NodeView::Real(t) => Some(t),
        NodeView::Text(t) => Some(t),
        _ => None,
    }
}

/// The text of the whole number `i`.
pub fn integer_to_string(i: i64) -> (r: String)
    ensures
        r@ == integer_text(i),
{
    let mut out = String::new();
    if i < 0 {
        out.push('-');
        let magnitude: u64 = ((-(i + 1)) as u64) + 1;
        push_decimal(&mut out, magnitude);
    } else {
        push_decimal(&mut out, i as u64);
        proof {
            assert(Seq::<char>::empty() + decimal_text(i as nat) == decimal_text(i as nat));
        }
    }
    out
}

/// Read a scalar as a string: see [`scalar_text`].
pub fn convert_to_string(node: &Node) -> (r: Result<String, Error>)
    ensures
        match scalar_text(node.deep_view()) {
            Some(t) => r is Ok && r->Ok_0@ == t,
            None => decode_result(r) == wrong_shape::<Seq<char>>(
                "a value which can be converted to a string"@,
            ),
        },
{
    match node {
        Node::Bool(b) => Ok(
            if *b {
                String::from_str("true")
            } else {
                String::from_str("false")
            },
        ),
        Node::Integer(i) => Ok(integer_to_string(*i)),
        Node::Real(t) => Ok(t.clone()),
        Node::Text(t) => Ok(t.clone()),
        _ => Err(Error::unexpected_shape("a value which can be converted to a string")),
    }
}

/// What [`raw`] makes of the text `t`, with its failure as an [`Error`].
pub open spec fn raw_decoded<T: InterpolatableValue>(t: Seq<char>) -> Result<
    RawOrView<T::V>,
    ErrorView,
> {
    match raw_model::<T>(t) {
        Ok(v) => Ok(v),
        Err(e) => Err(interpolation_error(e)),
    }
}

/// Make a [`RawOr`] of the text `s`, as [`raw`] does, with its failure as
/// an [`Error`].
pub fn raw_from_text<T: InterpolatableValue>(s: &str) -> (r: Result<RawOr<T>, Error>)
    ensures
        decode_result(r) == raw_decoded::<T>(s@),
{
    match raw(s) {
        Ok(v) => Ok(v),
        Err(e) => Err(Error::from_interpolation(e)),
    }
}

/// A leaf is read from any scalar, by way of its text.
impl<T: InterpolatableValue> FromNode for RawOr<T> {
    open spec fn decoded(node: NodeView) -> Result<RawOrView<T::V>, ErrorView> {
        match scalar_text(node) {
            None => wrong_shape("a value which can be converted to a string"@),
            Some(t) => raw_decoded::<T>(t),
        }
    }

    fn from_node(node: &Node) -> (r: Result<RawOr<T>, Error>) {
        let text = match convert_to_string(node) {
            Ok(text) => text,
            Err(e) => {
                return Err(e);
            },
        };
        raw_from_text(text.as_str())
    }
}

/// A leaf is written as the string that [`RawOr::to_display_string`] gives.
impl<T: InterpolatableValue> ToNode for RawOr<T> {
    open spec fn writable(v: RawOrView<T::V>) -> bool {
        v matches RawOrView::Value(value) ==> T::valid(value)
    }

    open spec fn encoded(v: RawOrView<T::V>) -> NodeView {
        NodeView::Text(displayed::<T::V, T>(v))
    }

    fn to_node(&self) -> (r: Node) {
        Node::Text(self.to_display_string())
    }

    fn is_writable(&self) -> (r: bool) {
        RawOr::is_writable(self)
    }
}

impl FromNode for bool {
    open spec fn decoded(node: NodeView) -> Result<bool, ErrorView> {
        match node {
            NodeView::Bool(b) => Ok(b),
            _ => wrong_shape("a boolean"@),
        }
    }

    fn from_node(node: &Node) -> (r: Result<bool, Error>) {
        match node {
            Node::Bool(b) => Ok(*b),
            _ => Err(Error::unexpected_shape("a boolean")),
        }
    }
}

impl ToNode for bool {
    open spec fn writable(v: bool) -> bool {
        true
    }

    open spec fn encoded(v: bool) -> NodeView {
        NodeView::Bool(v)
    }

    fn to_node(&self) -> (r: Node) {
        Node::Bool(*self)
    }

    fn is_writable(&self) -> (r: bool) {
        true
    }
}

impl FromNode for u32 {
    open spec fn decoded(node: NodeView) -> Result<u32, ErrorView> {
        match node {
            NodeView::Integer(i) if 0 <= i <= 0xffff_ffff => Ok(i as u32),
            _ => wrong_shape("a whole number from 0 to 4294967295"@),
        }
    }

    fn from_node(node: &Node) -> (r: Result<u32, Error>) {
        match node {
            Node::Integer(i) if 0 <= *i && *i <= 0xffff_ffff => Ok(*i as u32),
            _ => Err(Error::unexpected_shape("a whole number from 0 to 4294967295")),
        }
    }
}

impl ToNode for u32 {
    open spec fn writable(v: u32) -> bool {
        true
    }

    open spec fn encoded(v: u32) -> NodeView {
        NodeView::Integer(v as i64)
    }

    fn to_node(&self) -> (r: Node) {
        Node::Integer(*self as i64)
    }

    fn is_writable(&self) -> (r: bool) {
        true
    }
}

impl FromNode for i16 {
    open spec fn decoded(node: NodeView) -> Result<i16, ErrorView> {
        match node {
            NodeView::Integer(i) if -0x8000 <= i <= 0x7fff => Ok(i as i16),
            _ => wrong_shape("a whole number from -32768 to 32767"@),
        }
    }

    fn from_node(node: &Node) -> (r: Result<i16, Error>) {
        match node {
            Node::Integer(i) if -0x8000 <= *i && *i <= 0x7fff => Ok(*i as i16),
            _ => Err(Error::unexpected_shape("a whole number from -32768 to 32767")),
        }
    }
}

impl ToNode for i16 {
    open spec fn writable(v: i16) -> bool {
        true
    }

    open spec fn encoded(v: i16) -> NodeView {
        NodeView::Integer(v as i64)
    }

    fn to_node(&self) -> (r: Node) {
        Node::Integer(*self as i64)
    }

    fn is_writable(&self) -> (r: bool) {
        true
    }
}

impl FromNode for i64 {
    open spec fn decoded(node: NodeView) -> Result<i64, ErrorView> {
        match node {
            NodeView::Integer(i) => Ok(i),
            _ => wrong_shape("a whole number"@),
        }
    }

    fn from_node(node: &Node) -> (r: Result<i64, Error>) {
        match node {
            Node::Integer(i) => Ok(*i),
            _ => Err(Error::unexpected_shape("a whole number")),
        }
    }
}

impl ToNode for i64 {
    open spec fn writable(v: i64) -> bool {
        true
    }

    open spec fn encoded(v: i64) -> NodeView {
        NodeView::Integer(v)
    }

    fn to_node(&self) -> (r: Node) {
        Node::Integer(*self)
    }

    fn is_writable(&self) -> (r: bool) {
        true
    }
}

/// A string is read from any scalar, by way of its text.
impl FromNode for String {
    open spec fn decoded(node: NodeView) -> Result<Seq<char>, ErrorView> {
        match scalar_text(node) {
            Some(t) => Ok(t),
            None => wrong_shape("a value which can be converted to a string"@),
        }
    }

    fn from_node(node: &Node) -> (r: Result<String, Error>) {
        convert_to_string(node)
    }
}

impl ToNode for String {
    open spec fn writable(v: Seq<char>) -> bool {
        true
    }

    open spec fn encoded(v: Seq<char>) -> NodeView {
        NodeView::Text(v)
    }

    fn to_node(&self) -> (r: Node) {
        Node::Text(self.clone())
    }

    fn is_writable(&self) -> (r: bool) {
        true
    }
}

/// Types that have a value for what a document leaves out.
pub trait DefaultValue: Sized + DeepView {
    /// The value that stands for what is left out.
    spec fn default_model() -> Self::V;

    /// The value that stands for what is left out.
    fn default_value() -> (r: Self)
        ensures
            r.deep_view() == Self::default_model(),
    ;

    /// Is this the value that stands for what is left out?
    fn is_default(&self) -> (r: bool)
        ensures
            r == (self.deep_view() == Self::default_model()),
    ;
}

/// Nothing is read from nothing, and from anything else a value.
impl<T: FromNode> FromNode for Option<T> {
    open spec fn decoded(node: NodeView) -> Result<Option<T::V>, ErrorView> {
        match node {
            NodeView::Null => Ok(None),
            _ => match T::decoded(node) {
                Ok(v) => Ok(Some(v)),
                Err(e) => Err(e),
            },
        }
    }

    fn from_node(node: &Node) -> (r: Result<Option<T>, Error>) {
        match node {
            Node::Null => Ok(None),
            _ => match T::from_node(node) {
                Ok(v) => Ok(Some(v)),
                Err(e) => Err(e),
            },
        }
    }
}

impl<T: ToNode> ToNode for Option<T> {
    open spec fn writable(v: Option<T::V>) -> bool {
        v matches Some(x) ==> T::writable(x)
    }

    open spec fn encoded(v: Option<T::V>) -> NodeView {
        match v {
            Some(x) => T::encoded(x),
            None => NodeView::Null,
        }
    }

    fn to_node(&self) -> (r: Node) {
        match self {
            Some(x) => x.to_node(),
            None => Node::Null,
        }
    }

    fn is_writable(&self) -> (r: bool) {
        match self {
            Some(x) => x.is_writable(),
            None => true,
        }
    }
}

/// What reading the items of a list yields, from first to last: the
/// values, or the first failure.
pub open spec fn decoded_items<V>(
    items: Seq<NodeView>,
    decode: spec_fn(NodeView) -> Result<V, ErrorView>,
) -> Result<Seq<V>, ErrorView>
    decreases items.len(),
{
    if items.len() == 0 {
        Ok(Seq::empty())
    } else {
        match decoded_items(items.drop_last(), decode) {
            Err(e) => Err(e),
            Ok(front) => match decode(items.last()) {
                Err(e) => Err(e),
                Ok(v) => Ok(front.push(v)),
            },
        }
    }
}

/// A failure among the first items of a list is the failure of the list.
pub proof fn lemma_items_failure_stays<V>(
    items: Seq<NodeView>,
    decode: spec_fn(NodeView) -> Result<V, ErrorView>,
    k: int,
)
    requires
        0 <= k <= items.len(),
    ensures
        decoded_items(items.take(k), decode) is Err ==> decoded_items(items, decode)
            == decoded_items(items.take(k), decode),
    decreases items.len() - k,
{
    if k < items.len() {
        assert(items.take(k + 1).drop_last() == items.take(k));
        lemma_items_failure_stays(items, decode, k + 1);
    } else {
        assert(items.take(k) == items);
    }
}

/// The items of a list of nodes, as plain values.
pub open spec fn nodes_view(items: Seq<Node>) -> Seq<NodeView> {
    Seq::new(
        items.len(),
        |i: int|
            if 0 <= i < items.len() {
                node_view(items[i])
            } else {
                NodeView::Null
            },
    )
}

/// Read every item of `items`.
pub fn read_items<T: FromNode>(items: &Vec<Node>) -> (r: Result<Vec<T>, Error>)
    ensures
        decode_result(r) == decoded_items(nodes_view(items@), |n: NodeView| T::decoded(n)),
{
    let ghost decode = |n: NodeView| T::decoded(n);
    let ghost all = nodes_view(items@);
    let mut out: Vec<T> = Vec::new();
    let mut i: usize = 0;
    proof {
        assert(all.take(0) == Seq::<NodeView>::empty());
        assert(out.deep_view() == Seq::<T::V>::empty());
    }
    while i < items.len()
        invariant
            0 <= i <= items.len(),
            all == nodes_view(items@),
            decode == (|n: NodeView| T::decoded(n)),
            decoded_items(all.take(i as int), decode) == Ok::<_, ErrorView>(out.deep_view()),
        decreases items.len() - i,
    {
        proof {
            assert(all.take(i + 1).drop_last() == all.take(i as int));
            assert(all.take(i + 1).last() == node_view(items@[i as int]));
        }
        let ghost before = out.deep_view();
        match T::from_node(&items[i]) {
            Ok(v) => {
                out.push(v);
                proof {
                    assert(out.deep_view() =~= before.push(v.deep_view()));
                }
            },
            Err(e) => {
                proof {
                    lemma_items_failure_stays(all, decode, i + 1);
                }
                return Err(e);
            },
        }
        i += 1;
    }
    proof {
        assert(all.take(items.len() as int) == all);
    }
    Ok(out)
}

/// A list is read item by item.
impl<T: FromNode> FromNode for Vec<T> {
    open spec fn decoded(node: NodeView) -> Result<Seq<T::V>, ErrorView> {
        match node {
            NodeView::List(items) => decoded_items(items, |n: NodeView| T::decoded(n)),
            _ => wrong_shape("a list"@),
        }
    }

    fn from_node(node: &Node) -> (r: Result<Vec<T>, Error>) {
        match node {
            Node::List(items) => {
                proof {
                    assert(node.deep_view()->List_0 =~= nodes_view(items@));
                }
                read_items(items)
            },
            _ => Err(Error::unexpected_shape("a list")),
        }
    }
}

impl<T: ToNode> ToNode for Vec<T> {
    open spec fn writable(v: Seq<T::V>) -> bool {
        forall|i: int| 0 <= i < v.len() ==> T::writable(#[trigger] v[i])
    }

    open spec fn encoded(v: Seq<T::V>) -> NodeView {
        NodeView::List(v.map_values(|x: T::V| T::encoded(x)))
    }

    fn to_node(&self) -> (r: Node) {
        let mut out: Vec<Node> = Vec::new();
        let mut i: usize = 0;
        while i < self.len()
            invariant
                0 <= i <= self.len(),
                out.len() == i,
                Self::writable(self.deep_view()),
                forall|j: int|
                    0 <= j < i ==> node_view(#[trigger] out@[j]) == T::encoded(
                        self@[j].deep_view(),
                    ),
            decreases self.len() - i,
        {
            proof {
                assert(self.deep_view()[i as int] == self@[i as int].deep_view());
            }
            out.push(self[i].to_node());
            i += 1;
        }
        let r = Node::List(out);
        proof {
            assert(r.deep_view()->List_0 =~= self.deep_view().map_values(|x: T::V| T::encoded(x)));
        }
        r
    }

    fn is_writable(&self) -> (r: bool) {
        let mut i: usize = 0;
        while i < self.len()
            invariant
                0 <= i <= self.len(),
                forall|j: int| 0 <= j < i ==> T::writable(#[trigger] self.deep_view()[j]),
            decreases self.len() - i,
        {
            proof {
                assert(self.deep_view()[i as int] == self@[i as int].deep_view());
            }
            if !self[i].is_writable() {
                return false;
            }
            i += 1;
        }
        true
    }
}

/// The entries of a mapping of nodes, as plain values.
pub open spec fn entries_view(entries: Seq<(String, Node)>) -> Seq<(Seq<char>, NodeView)> {
    Seq::new(
        entries.len(),
        |i: int|
            if 0 <= i < entries.len() {
                (entries[i].0@, node_view(entries[i].1))
            } else {
                (Seq::empty(), NodeView::Null)
            },
    )
}

/// What reading the entries of a mapping yields, in the order of the
/// document: the map of the values, or the first failure.  A key that
/// occurs twice is a failure.
pub open spec fn decoded_entries<V>(
    entries: Seq<(Seq<char>, NodeView)>,
    decode: spec_fn(NodeView) -> Result<V, ErrorView>,
) -> Result<Map<Seq<char>, V>, ErrorView>
    decreases entries.len(),
{
    if entries.len() == 0 {
        Ok(Map::empty())
    } else {
        match decoded_entries(entries.drop_last(), decode) {
            Err(e) => Err(e),
            Ok(front) => if front.contains_key(entries.last().0) {
                Err(ErrorView::DuplicateKey(entries.last().0))
            } else {
                match decode(entries.last().1) {
                    Err(e) => Err(e),
                    Ok(v) => Ok(front.insert(entries.last().0, v)),
                }
            },
        }
    }
}

/// A failure among the first entries of a mapping is the failure of the
/// mapping.
pub proof fn lemma_entries_failure_stays<V>(
    entries: Seq<(Seq<char>, NodeView)>,
    decode: spec_fn(NodeView) -> Result<V, ErrorView>,
    k: int,
)
    requires
        0 <= k <= entries.len(),
    ensures
        decoded_entries(entries.take(k), decode) is Err ==> decoded_entries(entries, decode)
            == decoded_entries(entries.take(k), decode),
    decreases entries.len() - k,
{
    if k < entries.len() {
        assert(entries.take(k + 1).drop_last() == entries.take(k));
        lemma_entries_failure_stays(entries, decode, k + 1);
    } else {
        assert(entries.take(k) == entries);
    }
}

/// Read every value of `entries`.
pub fn read_entries<T: FromNode>(entries: &Vec<(String, Node)>) -> (r: Result<SortedMap<T>, Error>)
    ensures
        decode_result(r) == decoded_entries(entries_view(entries@), |n: NodeView| T::decoded(n)),
{
    let ghost decode = |n: NodeView| T::decoded(n);
    let ghost all = entries_view(entries@);
    let mut out: SortedMap<T> = SortedMap::new();
    let mut i: usize = 0;
    proof {
        assert(all.take(0) == Seq::<(Seq<char>, NodeView)>::empty());
    }
    out.check_order();
    proof {
        assert(out.entries() == Seq::<(Seq<char>, T::V)>::empty());
    }
    while i < entries.len()
        invariant
            0 <= i <= entries.len(),
            all == entries_view(entries@),
            decode == (|n: NodeView| T::decoded(n)),
            decoded_entries(all.take(i as int), decode) == Ok::<_, ErrorView>(out.deep_view()),
        decreases entries.len() - i,
    {
        proof {
            assert(all.take(i + 1).drop_last() == all.take(i as int));
            assert(all.take(i + 1).last() == (entries@[i as int].0@, node_view(entries@[i as int].1)));
        }
        if out.contains_key(entries[i].0.as_str()) {
            proof {
                lemma_entries_failure_stays(all, decode, i + 1);
            }
            return Err(Error::DuplicateKey(entries[i].0.clone()));
        }
        match T::from_node(&entries[i].1) {
            Ok(v) => {
                out.insert(entries[i].0.clone(), v);
            },
            Err(e) => {
                proof {
                    lemma_entries_failure_stays(all, decode, i + 1);
                }
                return Err(e);
            },
        }
        i += 1;
    }
    proof {
        assert(all.take(entries.len() as int) == all);
    }
    Ok(out)
}

/// A map is read entry by entry.
impl<T: FromNode> FromNode for SortedMap<T> {
    open spec fn decoded(node: NodeView) -> Result<Map<Seq<char>, T::V>, ErrorView> {
        match node {
            NodeView::Mapping(entries) => decoded_entries(entries, |n: NodeView| T::decoded(n)),
            _ => wrong_shape("a map"@),
        }
    }

    fn from_node(node: &Node) -> (r: Result<SortedMap<T>, Error>) {
        match node {
            Node::Mapping(entries) => {
                proof {
                    assert(node.deep_view()->Mapping_0 =~= entries_view(entries@));
                }
                read_entries(entries)
            },
            _ => Err(Error::unexpected_shape("a map")),
        }
    }
}

/// The mapping node that writes the entries of a map, in their order.
pub open spec fn encoded_entries<V>(
    entries: Seq<(Seq<char>, V)>,
    encode: spec_fn(V) -> NodeView,
) -> NodeView {
    NodeView::Mapping(entries.map_values(|e: (Seq<char>, V)| (e.0, encode(e.1))))
}

impl<T: ToNode> SortedMap<T> {
    /// Can every value of this map be written?
    pub open spec fn all_writable(&self) -> bool {
        forall|i: int| 0 <= i < self.entries().len() ==> T::writable(#[trigger] self.entries()[i].1)
    }

    /// The mapping node that writes this map: its entries in the ascending
    /// order of their keys.
    pub fn to_mapping(&self) -> (r: Node)
        requires
            self.all_writable(),
        ensures
            r.deep_view() == encoded_entries(self.entries(), |v: T::V| T::encoded(v)),
    {
        let n = self.len();
        self.check_order();
        let mut out: Vec<(String, Node)> = Vec::new();
        let mut i: usize = 0;
        while i < n
            invariant
                0 <= i <= n,
                n == self.count(),
                n == self.entries().len(),
                out.len() == i,
                self.all_writable(),
                forall|j: int|
                    0 <= j < i ==> (#[trigger] out@[j]).0@ == self.entries()[j].0 && node_view(
                        out@[j].1,
                    ) == T::encoded(self.entries()[j].1),
            decreases n - i,
        {
            let key = self.key_at(i).clone();
            let value = self.value_at(i).to_node();
            out.push((key, value));
            i += 1;
        }
        let r = Node::Mapping(out);
        proof {
            assert(r.deep_view()->Mapping_0 =~= encoded_entries(
                self.entries(),
                |v: T::V| T::encoded(v),
            )->Mapping_0);
        }
        r
    }
}

/// A map is written as a mapping, with its keys in ascending order.
impl<T: ToNode> ToNode for SortedMap<T> {
    open spec fn writable(v: Map<Seq<char>, T::V>) -> bool {
        forall|k: Seq<char>| v.contains_key(k) ==> T::writable(#[trigger] v[k])
    }

    open spec fn encoded(v: Map<Seq<char>, T::V>) -> NodeView {
        encoded_entries(sorted_entries(v), |x: T::V| T::encoded(x))
    }

    fn to_node(&self) -> (r: Node) {
        self.check_order();
        proof {
            assert forall|i: int| 0 <= i < self.entries().len() implies T::writable(
                #[trigger] self.entries()[i].1,
            ) by {
                lemma_entries_map_values(self.entries(), i);
            }
        }
        self.to_mapping()
    }

    fn is_writable(&self) -> (r: bool) {
        let n = self.len();
        self.check_order();
        let mut i: usize = 0;
        while i < n
            invariant
                0 <= i <= n,
                n == self.count(),
                n == self.entries().len(),
                keys_ascend(self.entries()),
                forall|j: int| 0 <= j < i ==> T::writable(#[trigger] self.entries()[j].1),
            decreases n - i,
        {
            if !self.value_at(i).is_writable() {
                proof {
                    lemma_entries_map_values(self.entries(), i as int);
                }
                return false;
            }
            i += 1;
        }
        proof {
            assert forall|k: Seq<char>| self.deep_view().contains_key(k) implies T::writable(
                #[trigger] self.deep_view()[k],
            ) by {
                lemma_entries_map_keys(self.entries(), k);
                let j = choose|j: int|
                    0 <= j < self.entries().len() && #[trigger] self.entries()[j].0 == k;
                lemma_entries_map_values(self.entries(), j);
            }
        }
        true
    }
}

/// The key and the value of an entry of a key/value list: what stands
/// before its first `=`, which is not empty, and what stands after it on
/// the same line.
pub open spec fn key_value_pair(entry: Seq<char>) -> Option<(Seq<char>, Seq<char>)> {
    let equals = index_of(entry, '=');
    if 0 < equals < entry.len() && !has_char(entry.skip(equals + 1), '\n') {
        Some((entry.take(equals), entry.skip(equals + 1)))
    } else {
        None
    }
}

/// The key and the value of an entry of a list in which values may be
/// missing: an entry without `=` is a key without a value.
pub open spec fn key_and_optional_value(entry: Seq<char>) -> Option<
    (Seq<char>, Option<Seq<char>>),
> {
    let equals = index_of(entry, '=');
    if equals == 0 || entry.len() == 0 {
        None
    } else if equals == entry.len() {
        Some((entry, None))
    } else {
        Some((entry.take(equals), Some(entry.skip(equals + 1))))
    }
}

/// What reading one entry of a key/value list adds to the map of the
/// entries before it.
pub open spec fn with_pair(
    front: Map<Seq<char>, RawOrView<Seq<char>>>,
    item: NodeView,
) -> Result<Map<Seq<char>, RawOrView<Seq<char>>>, ErrorView> {
    match item {
        NodeView::Text(entry) => match key_value_pair(entry) {
            None => Err(ErrorView::MalformedPair(entry)),
            Some((key, value)) => if front.contains_key(key) {
                Err(ErrorView::DuplicateKey(key))
            } else {
                match raw_decoded::<String>(value) {
                    Err(e) => Err(e),
                    Ok(v) => Ok(front.insert(key, v)),
                }
            },
        },
        _ => wrong_shape("a string"@),
    }
}

/// What reading one entry of a list of keys with optional values adds to
/// the map of the entries before it.
pub open spec fn with_optional_pair(
    front: Map<Seq<char>, Option<RawOrView<Seq<char>>>>,
    item: NodeView,
) -> Result<Map<Seq<char>, Option<RawOrView<Seq<char>>>>, ErrorView> {
    match item {
        NodeView::Text(entry) => match key_and_optional_value(entry) {
            None => Err(ErrorView::MalformedPair(entry)),
            Some((key, value)) => if front.contains_key(key) {
                Err(ErrorView::DuplicateKey(key))
            } else {
                match value {
                    None => Ok(front.insert(key, None)),
                    Some(text) => match raw_decoded::<String>(text) {
                        Err(e) => Err(e),
                        Ok(v) => Ok(front.insert(key, Some(v))),
                    },
                }
            },
        },
        _ => wrong_shape("a string"@),
    }
}

/// What reading one key of a list of keys adds to the map of the keys
/// before it: the key, with the default value.
pub open spec fn with_default<V>(front: Map<Seq<char>, V>, item: NodeView, default: V) -> Result<
    Map<Seq<char>, V>,
    ErrorView,
> {
    match scalar_text(item) {
        Some(key) => Ok(front.insert(key, default)),
        None => wrong_shape("a string"@),
    }
}

/// What reading the items of a list into a map yields, from first to last,
/// where `step` says what one item adds: the map, or the first failure.
pub open spec fn folded<M>(
    items: Seq<NodeView>,
    start: M,
    step: spec_fn(M, NodeView) -> Result<M, ErrorView>,
) -> Result<M, ErrorView>
    decreases items.len(),
{
    if items.len() == 0 {
        Ok(start)
    } else {
        match folded(items.drop_last(), start, step) {
            Err(e) => Err(e),
            Ok(front) => step(front, items.last()),
        }
    }
}

/// A failure among the first items is the failure of the whole.
pub proof fn lemma_folded_failure_stays<M>(
    items: Seq<NodeView>,
    start: M,
    step: spec_fn(M, NodeView) -> Result<M, ErrorView>,
    k: int,
)
    requires
        0 <= k <= items.len(),
    ensures
        folded(items.take(k), start, step) is Err ==> folded(items, start, step) == folded(
            items.take(k),
            start,
            step,
        ),
    decreases items.len() - k,
{
    if k < items.len() {
        assert(items.take(k + 1).drop_last() == items.take(k));
        lemma_folded_failure_stays(items, start, step, k + 1);
    } else {
        assert(items.take(k) == items);
    }
}

/// What [`deserialize_map_or_key_value_list`] makes of `node`.
pub open spec fn map_or_key_value_list(node: NodeView) -> Result<
    Map<Seq<char>, RawOrView<Seq<char>>>,
    ErrorView,
> {
    match node {
        NodeView::Mapping(entries) => decoded_entries(
            entries,
            |n: NodeView| RawOr::<String>::decoded(n),
        ),
        NodeView::List(items) => folded(
            items,
            Map::empty(),
            |m: Map<Seq<char>, RawOrView<Seq<char>>>, n: NodeView| with_pair(m, n),
        ),
        _ => wrong_shape("a map or a key/value list"@),
    }
}

/// Read a map that is written as a mapping, or as a list of `KEY=value`
/// entries.
///
/// In a mapping, a value that is a truth value or a number is read as the
/// text that writes it.  In a list, an entry is split at its first `=`.  In
/// both, a key that occurs twice is an error.
pub fn deserialize_map_or_key_value_list(node: &Node) -> (r: Result<
    SortedMap<RawOr<String>>,
    Error,
>)
    ensures
        decode_result(r) == map_or_key_value_list(node.deep_view()),
{
    match node {
        Node::Mapping(entries) => {
            proof {
                assert(node.deep_view()->Mapping_0 =~= entries_view(entries@));
            }
            read_entries(entries)
        },
        Node::List(items) => {
            proof {
                assert(node.deep_view()->List_0 =~= nodes_view(items@));
            }
            read_pairs(items)
        },
        _ => Err(Error::unexpected_shape("a map or a key/value list")),
    }
}

/// Read the entries of a key/value list.
fn read_pairs(items: &Vec<Node>) -> (r: Result<SortedMap<RawOr<String>>, Error>)
    ensures
        decode_result(r) == folded(
            nodes_view(items@),
            Map::empty(),
            |m: Map<Seq<char>, RawOrView<Seq<char>>>, n: NodeView| with_pair(m, n),
        ),
{
    let ghost step = |m: Map<Seq<char>, RawOrView<Seq<char>>>, n: NodeView| with_pair(m, n);
    let ghost start = Map::<Seq<char>, RawOrView<Seq<char>>>::empty();
    let ghost all = nodes_view(items@);
    let mut out: SortedMap<RawOr<String>> = SortedMap::new();
    let mut i: usize = 0;
    out.check_order();
    proof {
        assert(all.take(0) == Seq::<NodeView>::empty());
        assert(out.entries() == Seq::<(Seq<char>, RawOrView<Seq<char>>)>::empty());
    }
    while i < items.len()
        invariant
            0 <= i <= items.len(),
            all == nodes_view(items@),
            start == Map::<Seq<char>, RawOrView<Seq<char>>>::empty(),
            step == (|m: Map<Seq<char>, RawOrView<Seq<char>>>, n: NodeView| with_pair(m, n)),
            folded(all.take(i as int), start, step) == Ok::<_, ErrorView>(out.deep_view()),
        decreases items.len() - i,
    {
        proof {
            assert(all.take(i + 1).drop_last() == all.take(i as int));
            assert(all.take(i + 1).last() == node_view(items@[i as int]));
            lemma_folded_failure_stays(all, start, step, i + 1);
        }
        let entry = match &items[i] {
            Node::Text(entry) => entry,
            _ => {
                return Err(Error::unexpected_shape("a string"));
            },
        };
        let chars = chars_of(entry.as_str());
        let n = chars.len();
        let equals = find_char(&chars, 0, n, '=');
        proof {
            assert(chars@.subrange(0, n as int) == chars@);
        }
        if equals == 0 || equals >= n {
            return Err(Error::MalformedPair(entry.clone()));
        }
        let end = find_char(&chars, equals + 1, n, '\n');
        proof {
            assert(chars@.subrange(equals + 1, n as int) == chars@.skip(equals + 1));
            assert(chars@.subrange(0, equals as int) == chars@.take(equals as int));
        }
        if end < n {
            return Err(Error::MalformedPair(entry.clone()));
        }
        let key = string_of_range(&chars, 0, equals);
        let value = string_of_range(&chars, equals + 1, n);
        if out.contains_key(key.as_str()) {
            return Err(Error::DuplicateKey(key));
        }
        match raw_from_text::<String>(value.as_str()) {
            Ok(v) => {
                out.insert(key, v);
            },
            Err(e) => {
                return Err(e);
            },
        }
        i += 1;
    }
    proof {
        assert(all.take(items.len() as int) == all);
    }
    Ok(out)
}

/// What [`deserialize_map_or_key_optional_value_list`] makes of `node`.
pub open spec fn map_or_key_optional_value_list(node: NodeView) -> Result<
    Map<Seq<char>, Option<RawOrView<Seq<char>>>>,
    ErrorView,
> {
    match node {
        NodeView::Mapping(entries) => decoded_entries(
            entries,
            |n: NodeView| Option::<RawOr<String>>::decoded(n),
        ),
        NodeView::List(items) => folded(
            items,
            Map::empty(),
            |m: Map<Seq<char>, Option<RawOrView<Seq<char>>>>, n: NodeView|
                with_optional_pair(m, n),
        ),
        _ => wrong_shape("a map or a key/value list"@),
    }
}

/// Read a map whose values may be missing, written as a mapping, or as a
/// list of `KEY=value` and `KEY` entries.
///
/// In a mapping, a key without a value has none.  In a list, an entry is
/// split at its first `=`, and an entry without `=` is a key that has no
/// value.  In both, a key that occurs twice is an error.
pub fn deserialize_map_or_key_optional_value_list(node: &Node) -> (r: Result<
    SortedMap<Option<RawOr<String>>>,
    Error,
>)
    ensures
        decode_result(r) == map_or_key_optional_value_list(node.deep_view()),
{
    match node {
        Node::Mapping(entries) => {
            proof {
                assert(node.deep_view()->Mapping_0 =~= entries_view(entries@));
            }
            read_entries(entries)
        },
        Node::List(items) => {
            proof {
                assert(node.deep_view()->List_0 =~= nodes_view(items@));
            }
            read_optional_pairs(items)
        },
        _ => Err(Error::unexpected_shape("a map or a key/value list")),
    }
}

/// Read the entries of a list of keys with optional values.
fn read_optional_pairs(items: &Vec<Node>) -> (r: Result<SortedMap<Option<RawOr<String>>>, Error>)
    ensures
        decode_result(r) == folded(
            nodes_view(items@),
            Map::empty(),
            |m: Map<Seq<char>, Option<RawOrView<Seq<char>>>>, n: NodeView|
                with_optional_pair(m, n),
        ),
{
    let ghost step = |m: Map<Seq<char>, Option<RawOrView<Seq<char>>>>, n: NodeView|
        with_optional_pair(m, n);
    let ghost start = Map::<Seq<char>, Option<RawOrView<Seq<char>>>>::empty();
    let ghost all = nodes_view(items@);
    let mut out: SortedMap<Option<RawOr<String>>> = SortedMap::new();
    let mut i: usize = 0;
    out.check_order();
    proof {
        assert(all.take(0) == Seq::<NodeView>::empty());
        assert(out.entries() == Seq::<(Seq<char>, Option<RawOrView<Seq<char>>>)>::empty());
    }
    while i < items.len()
        invariant
            0 <= i <= items.len(),
            all == nodes_view(items@),
            start == Map::<Seq<char>, Option<RawOrView<Seq<char>>>>::empty(),
            step == (|m: Map<Seq<char>, Option<RawOrView<Seq<char>>>>, n: NodeView|
                with_optional_pair(m, n)),
            folded(all.take(i as int), start, step) == Ok::<_, ErrorView>(out.deep_view()),
        decreases items.len() - i,
    {
        proof {
            assert(all.take(i + 1).drop_last() == all.take(i as int));
            assert(all.take(i + 1).last() == node_view(items@[i as int]));
            lemma_folded_failure_stays(all, start, step, i + 1);
        }
        let entry = match &items[i] {
            Node::Text(entry) => entry,
            _ => {
                return Err(Error::unexpected_shape("a string"));
            },
        };
        let chars = chars_of(entry.as_str());
        let n = chars.len();
        let equals = find_char(&chars, 0, n, '=');
        proof {
            assert(chars@.subrange(0, n as int) == chars@);
            assert(chars@.subrange(0, equals as int) == chars@.take(equals as int));
        }
        if equals == 0 || n == 0 {
            return Err(Error::MalformedPair(entry.clone()));
        }
        let key = string_of_range(&chars, 0, equals);
        if out.contains_key(key.as_str()) {
            return Err(Error::DuplicateKey(key));
        }
        if equals == n {
            proof {
                assert(chars@.take(n as int) == chars@);
            }
            out.insert(key, None);
        } else {
            proof {
                assert(chars@.subrange(equals + 1, n as int) == chars@.skip(equals + 1));
            }
            let value = string_of_range(&chars, equals + 1, n);
            match raw_from_text::<String>(value.as_str()) {
                Ok(v) => {
                    out.insert(key, Some(v));
                },
                Err(e) => {
                    return Err(e);
                },
            }
        }
        i += 1;
    }
    proof {
        assert(all.take(items.len() as int) == all);
    }
    Ok(out)
}

/// What [`deserialize_map_or_default_list`] makes of `node`.
pub open spec fn map_or_default_list<T: FromNode + DefaultValue>(node: NodeView) -> Result<
    Map<Seq<char>, T::V>,
    ErrorView,
> {
    match node {
        NodeView::Mapping(entries) => decoded_entries(entries, |n: NodeView| T::decoded(n)),
        NodeView::List(items) => folded(
            items,
            Map::empty(),
            |m: Map<Seq<char>, T::V>, n: NodeView| with_default(m, n, T::default_model()),
        ),
        _ => wrong_shape("a map or a list of strings"@),
    }
}

/// Read a map that is written as a mapping, or as a list of its keys: each
/// key of a list stands for the default value.
pub fn deserialize_map_or_default_list<T: FromNode + DefaultValue>(node: &Node) -> (r: Result<
    SortedMap<T>,
    Error,
>)
    ensures
        decode_result(r) == map_or_default_list::<T>(node.deep_view()),
{
    match node {
        Node::Mapping(entries) => {
            proof {
                assert(node.deep_view()->Mapping_0 =~= entries_view(entries@));
            }
            read_entries(entries)
        },
        Node::List(items) => {
            proof {
                assert(node.deep_view()->List_0 =~= nodes_view(items@));
            }
            let ghost step = |m: Map<Seq<char>, T::V>, n: NodeView|
                with_default(m, n, T::default_model());
            let ghost start = Map::<Seq<char>, T::V>::empty();
            let ghost all = nodes_view(items@);
            let mut out: SortedMap<T> = SortedMap::new();
            let mut i: usize = 0;
            out.check_order();
            proof {
                assert(all.take(0) == Seq::<NodeView>::empty());
                assert(out.entries() == Seq::<(Seq<char>, T::V)>::empty());
            }
            while i < items.len()
                invariant
                    0 <= i <= items.len(),
                    all == nodes_view(items@),
                    start == Map::<Seq<char>, T::V>::empty(),
                    step == (|m: Map<Seq<char>, T::V>, n: NodeView|
                        with_default(m, n, T::default_model())),
                    node.deep_view() == NodeView::List(all),
                    folded(all.take(i as int), start, step) == Ok::<_, ErrorView>(out.deep_view()),
                decreases items.len() - i,
            {
                proof {
                    assert(all.take(i + 1).drop_last() == all.take(i as int));
                    assert(all.take(i + 1).last() == node_view(items@[i as int]));
                    lemma_folded_failure_stays(all, start, step, i + 1);
                }
                match convert_to_string(&items[i]) {
                    Ok(key) => {
                        out.insert(key, T::default_value());
                    },
                    Err(_) => {
                        return Err(Error::unexpected_shape("a string"));
                    },
                }
                i += 1;
            }
            proof {
                assert(all.take(items.len() as int) == all);
            }
            Ok(out)
        },
        _ => Err(Error::unexpected_shape("a map or a list of strings")),
    }
}

/// What reading `node` yields where nothing stands for the default value.
pub open spec fn decoded_or_default<T: FromNode + DefaultValue>(node: NodeView) -> Result<
    T::V,
    ErrorView,
> {
    match node {
        NodeView::Null => Ok(T::default_model()),
        _ => T::decoded(node),
    }
}

/// What [`deserialize_map_struct_or_null`] makes of `node`.
pub open spec fn map_struct_or_null<T: FromNode + DefaultValue>(node: NodeView) -> Result<
    Map<Seq<char>, T::V>,
    ErrorView,
> {
    match node {
        NodeView::Mapping(entries) => decoded_entries(
            entries,
            |n: NodeView| decoded_or_default::<T>(n),
        ),
        _ => wrong_shape("a map"@),
    }
}

/// Read a map in which a key may stand without a value: it then has the
/// default value.  This is how a name is declared without configuration.
pub fn deserialize_map_struct_or_null<T: FromNode + DefaultValue>(node: &Node) -> (r: Result<
    SortedMap<T>,
    Error,
>)
    ensures
        decode_result(r) == map_struct_or_null::<T>(node.deep_view()),
{
    let entries = match node {
        Node::Mapping(entries) => entries,
        _ => {
            return Err(Error::unexpected_shape("a map"));
        },
    };
    proof {
        assert(node.deep_view()->Mapping_0 =~= entries_view(entries@));
    }
    let ghost decode = |n: NodeView| decoded_or_default::<T>(n);
    let ghost all = entries_view(entries@);
    let mut out: SortedMap<T> = SortedMap::new();
    let mut i: usize = 0;
    out.check_order();
    proof {
        assert(all.take(0) == Seq::<(Seq<char>, NodeView)>::empty());
        assert(out.entries() == Seq::<(Seq<char>, T::V)>::empty());
    }
    while i < entries.len()
        invariant
            0 <= i <= entries.len(),
            all == entries_view(entries@),
            decode == (|n: NodeView| decoded_or_default::<T>(n)),
            node.deep_view() == NodeView::Mapping(all),
            decoded_entries(all.take(i as int), decode) == Ok::<_, ErrorView>(out.deep_view()),
        decreases entries.len() - i,
    {
        proof {
            assert(all.take(i + 1).drop_last() == all.take(i as int));
            assert(all.take(i + 1).last() == (entries@[i as int].0@, node_view(entries@[i as int].1)));
            lemma_entries_failure_stays(all, decode, i + 1);
        }
        if out.contains_key(entries[i].0.as_str()) {
            return Err(Error::DuplicateKey(entries[i].0.clone()));
        }
        let value = match &entries[i].1 {
            Node::Null => T::default_value(),
            other => match T::from_node(other) {
                Ok(v) => v,
                Err(e) => {
                    return Err(e);
                },
            },
        };
        out.insert(entries[i].0.clone(), value);
        i += 1;
    }
    proof {
        assert(all.take(entries.len() as int) == all);
    }
    Ok(out)
}

/// What [`deserialize_item_or_list`] makes of `node`.
pub open spec fn item_or_list<T: InterpolatableValue>(node: NodeView) -> Result<
    Seq<RawOrView<T::V>>,
    ErrorView,
> {
    match node {
        NodeView::List(items) => decoded_items(items, |n: NodeView| RawOr::<T>::decoded(n)),
        _ => match scalar_text(node) {
            Some(t) => match raw_decoded::<T>(t) {
                Ok(v) => Ok(seq![v]),
                Err(e) => Err(e),
            },
            None => wrong_shape("a string or a list of strings"@),
        },
    }
}

/// Read a list that may be written as its one item: a scalar is a list of
/// one.
pub fn deserialize_item_or_list<T: InterpolatableValue>(node: &Node) -> (r: Result<
    Vec<RawOr<T>>,
    Error,
>)
    ensures
        decode_result(r) == item_or_list::<T>(node.deep_view()),
{
    match node {
        Node::List(items) => {
            proof {
                assert(node.deep_view()->List_0 =~= nodes_view(items@));
            }
            read_items(items)
        },
        _ => match convert_to_string(node) {
            Err(_) => Err(Error::unexpected_shape("a string or a list of strings")),
            Ok(text) => match raw_from_text::<T>(text.as_str()) {
                Ok(v) => {
                    let mut out: Vec<RawOr<T>> = Vec::new();
                    out.push(v);
                    proof {
                        assert(out.deep_view() =~= seq![v.deep_view()]);
                    }
                    Ok(out)
                },
                Err(e) => Err(e),
            },
        },
    }
}

/// What [`deserialize_opt_true_or_struct`] makes of `node`.
pub open spec fn opt_true_or_struct<T: FromNode + DefaultValue>(node: NodeView) -> Result<
    Option<T::V>,
    ErrorView,
> {
    match node {
        NodeView::Null => Ok(None),
        NodeView::Bool(true) => Ok(Some(T::default_model())),
        NodeView::Bool(false) => Ok(None),
        NodeView::Mapping(_) => match T::decoded(node) {
            Ok(v) => Ok(Some(v)),
            Err(e) => Err(e),
        },
        _ => wrong_shape("true or a map"@),
    }
}

/// Read a value that may be written as `true`, which stands for its
/// defaults, or as a mapping.  `false` and nothing stand for no value.
pub fn deserialize_opt_true_or_struct<T: FromNode + DefaultValue>(node: &Node) -> (r: Result<
    Option<T>,
    Error,
>)
    ensures
        decode_result(r) == opt_true_or_struct::<T>(node.deep_view()),
{
    match node {
        Node::Null => Ok(None),
        Node::Bool(true) => Ok(Some(T::default_value())),
        Node::Bool(false) => Ok(None),
        Node::Mapping(_) => match T::from_node(node) {
            Ok(v) => Ok(Some(v)),
            Err(e) => Err(e),
        },
        _ => Err(Error::unexpected_shape("true or a map")),
    }
}

/// The node that [`serialize_true_or_struct`] writes for `v`.
pub open spec fn true_or_struct_encoded<T: ToNode + DefaultValue>(v: T::V) -> NodeView {
    if v == T::default_model() {
        NodeView::Bool(true)
    } else {
        T::encoded(v)
    }
}

/// Write a value as `true` if it is all defaults, else as a mapping.
pub fn serialize_true_or_struct<T: ToNode + DefaultValue>(value: &T) -> (r: Node)
    requires
        T::writable(value.deep_view()),
    ensures
        r.deep_view() == true_or_struct_encoded::<T>(value.deep_view()),
{
    if value.is_default() {
        Node::Bool(true)
    } else {
        value.to_node()
    }
}

/// The index at which `name` first occurs in `names`, or the length of
/// `names` if it does not occur.
pub open spec fn first_index(names: Seq<Seq<char>>, name: Seq<char>) -> int
    decreases names.len(),
{
    if names.len() == 0 {
        0
    } else if names[0] == name {
        0
    } else {
        1 + first_index(names.drop_first(), name)
    }
}

/// The node that stands for the key `name` in `entries`: that of the last
/// entry with that key.
pub open spec fn slot_of(entries: Seq<(Seq<char>, NodeView)>, name: Seq<char>) -> Option<NodeView>
    decreases entries.len(),
{
    if entries.len() == 0 {
        None
    } else if entries.last().0 == name {
        Some(entries.last().1)
    } else {
        slot_of(entries.drop_last(), name)
    }
}

/// What is wrong with the keys of `entries`, for a value whose fields are
/// `names`: the first key, in the order of the document, that is no field
/// or that occurred before.
pub open spec fn structure_problem(
    entries: Seq<(Seq<char>, NodeView)>,
    names: Seq<Seq<char>>,
) -> Option<ErrorView>
    decreases entries.len(),
{
    if entries.len() == 0 {
        None
    } else {
        let front = structure_problem(entries.drop_last(), names);
        let key = entries.last().0;
        if front is Some {
            front
        } else if first_index(names, key) >= names.len() {
            Some(ErrorView::UnknownField(key))
        } else if slot_of(entries.drop_last(), key) is Some {
            Some(ErrorView::DuplicateKey(key))
        } else {
            None
        }
    }
}

/// A problem among the first entries is the problem of the whole.
pub proof fn lemma_structure_problem_stays(
    entries: Seq<(Seq<char>, NodeView)>,
    names: Seq<Seq<char>>,
    k: int,
)
    requires
        0 <= k <= entries.len(),
    ensures
        structure_problem(entries.take(k), names) is Some ==> structure_problem(entries, names)
            == structure_problem(entries.take(k), names),
    decreases entries.len() - k,
{
    if k < entries.len() {
        assert(entries.take(k + 1).drop_last() == entries.take(k));
        lemma_structure_problem_stays(entries, names, k + 1);
    } else {
        assert(entries.take(k) == entries);
    }
}

/// The node that stands for the field at the index `k` of `names`.
pub open spec fn field_slot(
    entries: Seq<(Seq<char>, NodeView)>,
    names: Seq<Seq<char>>,
    k: int,
) -> Option<NodeView> {
    if 0 <= k < names.len() && first_index(names, names[k]) == k {
        slot_of(entries, names[k])
    } else {
        None
    }
}

/// The names of fields, as plain values.
pub open spec fn names_view(names: Seq<&str>) -> Seq<Seq<char>> {
    Seq::new(names.len(), |i: int| names[i]@)
}

/// The index at which `name` first occurs in `names`.
fn position(names: &Vec<&str>, name: &str) -> (r: usize)
    ensures
        r == first_index(names_view(names@), name@),
        r <= names.len(),
{
    let ghost all = names_view(names@);
    let mut i: usize = 0;
    proof {
        assert(all.skip(0) == all);
    }
    while i < names.len()
        invariant
            0 <= i <= names.len(),
            all == names_view(names@),
            first_index(all, name@) == i + first_index(all.skip(i as int), name@),
        decreases names.len() - i,
    {
        proof {
            assert(all.skip(i as int)[0] == names@[i as int]@);
            assert(all.skip(i as int).drop_first() == all.skip(i + 1));
        }
        if same_text(names[i], name) {
            return i;
        }
        i += 1;
    }
    i
}

/// The node behind a slot, as a plain value.
pub open spec fn slot_view(slot: Option<&Node>) -> Option<NodeView> {
    match slot {
        Some(node) => Some(node.deep_view()),
        None => None,
    }
}

/// What [`struct_slots`] makes of `node`: for each field the node that
/// stands for it, unless `node` is no mapping or its keys have a problem.
pub open spec fn slots_of(node: NodeView, names: Seq<Seq<char>>, expected: Seq<char>) -> Result<
    Seq<Option<NodeView>>,
    ErrorView,
> {
    match node {
        NodeView::Mapping(entries) => match structure_problem(entries, names) {
            Some(e) => Err(e),
            None => Ok(Seq::new(names.len(), |k: int| field_slot(entries, names, k))),
        },
        _ => wrong_shape(expected),
    }
}

/// Sort the entries of a mapping by the fields `names` of the value that
/// the mapping stands for.  A key that is no field is an error, and so is
/// a key that occurs twice.
pub fn struct_slots<'a>(node: &'a Node, names: &Vec<&str>, expected: &str) -> (r: Result<
    Vec<Option<&'a Node>>,
    Error,
>)
    ensures
        match slots_of(node.deep_view(), names_view(names@), expected@) {
            Err(e) => r is Err && r->Err_0.deep_view() == e,
            Ok(slots) => r is Ok && r->Ok_0.len() == slots.len() && forall|k: int|
                0 <= k < slots.len() ==> slot_view(#[trigger] r->Ok_0[k]) == slots[k],
        },
{
    let entries = match node {
        Node::Mapping(entries) => entries,
        _ => {
            return Err(Error::unexpected_shape(expected));
        },
    };
    let ghost all = entries_view(entries@);
    let ghost fields = names_view(names@);
    proof {
        assert(node.deep_view()->Mapping_0 =~= all);
    }
    let mut slots: Vec<Option<&'a Node>> = Vec::new();
    let mut k: usize = 0;
    while k < names.len()
        invariant
            0 <= k <= names.len(),
            slots.len() == k,
            forall|j: int| 0 <= j < k ==> (#[trigger] slots[j]) is None,
        decreases names.len() - k,
    {
        slots.push(None);
        k += 1;
    }
    let mut i: usize = 0;
    proof {
        assert(all.take(0) == Seq::<(Seq<char>, NodeView)>::empty());
    }
    while i < entries.len()
        invariant
            0 <= i <= entries.len(),
            all == entries_view(entries@),
            fields == names_view(names@),
            node.deep_view() == NodeView::Mapping(all),
            slots.len() == names.len(),
            structure_problem(all.take(i as int), fields) is None,
            forall|j: int|
                0 <= j < slots.len() ==> slot_view(#[trigger] slots[j]) == field_slot(
                    all.take(i as int),
                    fields,
                    j,
                ),
        decreases entries.len() - i,
    {
        let ghost before = all.take(i as int);
        let ghost now = all.take(i + 1);
        proof {
            assert(now.drop_last() == before);
            assert(now.last() == (entries@[i as int].0@, node_view(entries@[i as int].1)));
            lemma_structure_problem_stays(all, fields, i + 1);
        }
        let key = entries[i].0.as_str();
        let at = position(names, key);
        if at >= names.len() {
            return Err(Error::UnknownField(entries[i].0.clone()));
        }
        proof {
            lemma_first_index(fields, key@);
            assert(field_slot(before, fields, at as int) == slot_of(before, key@));
        }
        if slots[at].is_some() {
            return Err(Error::DuplicateKey(entries[i].0.clone()));
        }
        slots.set(at, Some(&entries[i].1));
        proof {
            assert forall|j: int| 0 <= j < slots.len() implies slot_view(#[trigger] slots[j])
                == field_slot(now, fields, j) by {
                if j != at {
                    if first_index(fields, fields[j]) == j {
                        assert(fields[j] != key@);
                    }
                }
            }
        }
        i += 1;
    }
    proof {
        assert(all.take(entries.len() as int) == all);
    }
    Ok(slots)
}

/// [`first_index`] finds an index at which the name stands, if there is
/// one.
pub proof fn lemma_first_index(names: Seq<Seq<char>>, name: Seq<char>)
    ensures
        0 <= first_index(names, name) <= names.len(),
        first_index(names, name) < names.len() ==> names[first_index(names, name)] == name,
    decreases names.len(),
{
    if names.len() > 0 && names[0] != name {
        lemma_first_index(names.drop_first(), name);
    }
}

/// The entries of the fields that are written: a field whose node is
/// missing is left out.
pub open spec fn present(fields: Seq<(Seq<char>, Option<NodeView>)>) -> Seq<(Seq<char>, NodeView)>
    decreases fields.len(),
{
    if fields.len() == 0 {
        Seq::empty()
    } else {
        match fields.last().1 {
            Some(node) => present(fields.drop_last()).push((fields.last().0, node)),
            None => present(fields.drop_last()),
        }
    }
}

/// The fields of a value with their nodes, as plain values.
pub open spec fn fields_view(fields: Seq<(&str, Option<Node>)>) -> Seq<
    (Seq<char>, Option<NodeView>),
> {
    Seq::new(
        fields.len(),
        |i: int|
            (
                fields[i].0@,
                match fields[i].1 {
                    Some(node) => Some(node_view(node)),
                    None => None,
                },
            ),
    )
}

/// The mapping that writes the fields of a value: each field that has a
/// node, in the order in which they are given.
pub fn mapping_of(fields: Vec<(&str, Option<Node>)>) -> (r: Node)
    ensures
        r.deep_view() == NodeView::Mapping(present(fields_view(fields@))),
{
    let ghost all = fields_view(fields@);
    let mut fields = fields;
    let mut out: Vec<(String, Node)> = Vec::new();
    let mut i: usize = 0;
    proof {
        assert(all.take(0) == Seq::<(Seq<char>, Option<NodeView>)>::empty());
        assert(entries_view(out@) =~= present(all.take(0)));
    }
    while i < fields.len()
        invariant
            0 <= i <= fields.len(),
            all.len() == fields.len(),
            entries_view(out@) == present(all.take(i as int)),
            forall|j: int| i <= j < fields.len() ==> fields_view(fields@)[j] == all[j],
        decreases fields.len() - i,
    {
        proof {
            assert(all.take(i + 1).drop_last() == all.take(i as int));
            assert(all.take(i + 1).last() == all[i as int]);
            assert(fields_view(fields@)[i as int] == all[i as int]);
        }
        let ghost old_fields = fields@;
        let ghost old_out = entries_view(out@);
        let mut slot: Option<Node> = None;
        core::mem::swap(&mut fields[i].1, &mut slot);
        proof {
            assert forall|j: int| i < j < fields.len() implies fields_view(fields@)[j]
                == all[j] by {
                assert(fields@[j] == old_fields[j]);
                assert(fields_view(old_fields)[j] == all[j]);
            }
        }
        if let Some(node) = slot {
            let name = fields[i].0.to_owned();
            proof {
                assert(fields@[i as int].0 == old_fields[i as int].0);
            }
            out.push((name, node));
            proof {
                assert(entries_view(out@) =~= old_out.push((all[i as int].0, node_view(node))));
            }
        }
        i += 1;
    }
    proof {
        assert(all.take(fields.len() as int) == all);
    }
    let r = Node::Mapping(out);
    proof {
        assert(r.deep_view()->Mapping_0 =~= entries_view(out@));
    }
    r
}

/// What reading a field that must be there yields.
pub open spec fn required_of<T: FromNode>(slot: Option<NodeView>, key: Seq<char>) -> Result<
    T::V,
    ErrorView,
> {
    match slot {
        Some(node) => T::decoded(node),
        None => Err(ErrorView::MissingField(key)),
    }
}

/// Read the field `key`, which must be there.
pub fn decode_required<T: FromNode>(slot: Option<&Node>, key: &str) -> (r: Result<T, Error>)
    ensures
        decode_result(r) == required_of::<T>(slot_view(slot), key@),
{
    match slot {
        Some(node) => T::from_node(node),
        None => Err(Error::MissingField(key.to_owned())),
    }
}

/// What reading a field that may be missing yields: nothing, if the field
/// is missing or stands without a value.
pub open spec fn optional_of<T: FromNode>(slot: Option<NodeView>) -> Result<
    Option<T::V>,
    ErrorView,
> {
    match slot {
        Some(node) => Option::<T>::decoded(node),
        None => Ok(None),
    }
}

/// Read a field that may be missing.
pub fn decode_optional<T: FromNode>(slot: Option<&Node>) -> (r: Result<Option<T>, Error>)
    ensures
        decode_result(r) == optional_of::<T>(slot_view(slot)),
{
    match slot {
        Some(node) => Option::<T>::from_node(node),
        None => Ok(None),
    }
}

/// What reading a list that may be missing yields: the empty list, if it
/// is missing.
pub open spec fn list_of<T: FromNode>(slot: Option<NodeView>) -> Result<Seq<T::V>, ErrorView> {
    match slot {
        Some(node) => Vec::<T>::decoded(node),
        None => Ok(Seq::empty()),
    }
}

/// Read a list that may be missing.
pub fn decode_list<T: FromNode>(slot: Option<&Node>) -> (r: Result<Vec<T>, Error>)
    ensures
        decode_result(r) == list_of::<T>(slot_view(slot)),
{
    match slot {
        Some(node) => Vec::<T>::from_node(node),
        None => {
            let out: Vec<T> = Vec::new();
            proof {
                assert(out.deep_view() =~= Seq::<T::V>::empty());
            }
            Ok(out)
        },
    }
}

/// What reading a list that may be missing, or written as its one item,
/// yields.
pub open spec fn item_or_list_of<T: InterpolatableValue>(slot: Option<NodeView>) -> Result<
    Seq<RawOrView<T::V>>,
    ErrorView,
> {
    match slot {
        Some(node) => item_or_list::<T>(node),
        None => Ok(Seq::empty()),
    }
}

/// Read a list that may be missing, or written as its one item.
pub fn decode_item_or_list<T: InterpolatableValue>(slot: Option<&Node>) -> (r: Result<
    Vec<RawOr<T>>,
    Error,
>)
    ensures
        decode_result(r) == item_or_list_of::<T>(slot_view(slot)),
{
    match slot {
        Some(node) => deserialize_item_or_list(node),
        None => {
            let out: Vec<RawOr<T>> = Vec::new();
            proof {
                assert(out.deep_view() =~= Seq::<RawOrView<T::V>>::empty());
            }
            Ok(out)
        },
    }
}

/// What reading a map that may be missing yields, where `read` says what
/// the map reads as if it is there: the empty map, if it is missing.
pub open spec fn map_of<V>(
    slot: Option<NodeView>,
    read: spec_fn(NodeView) -> Result<Map<Seq<char>, V>, ErrorView>,
) -> Result<Map<Seq<char>, V>, ErrorView> {
    match slot {
        Some(node) => read(node),
        None => Ok(Map::empty()),
    }
}

/// The map that stands for a map that is missing.
pub fn empty_map<T: DeepView>() -> (r: SortedMap<T>)
    ensures
        r.deep_view() == Map::<Seq<char>, T::V>::empty(),
{
    let out: SortedMap<T> = SortedMap::new();
    let _ = out.has_no_entries();
    out
}

/// Read a map that may be missing.
pub fn decode_map<T: FromNode>(slot: Option<&Node>) -> (r: Result<SortedMap<T>, Error>)
    ensures
        decode_result(r) == map_of(slot_view(slot), |n: NodeView| SortedMap::<T>::decoded(n)),
{
    match slot {
        Some(node) => SortedMap::<T>::from_node(node),
        None => Ok(empty_map()),
    }
}

/// Read a map that may be missing, or written as a key/value list.
pub fn decode_map_or_key_value_list(slot: Option<&Node>) -> (r: Result<
    SortedMap<RawOr<String>>,
    Error,
>)
    ensures
        decode_result(r) == map_of(slot_view(slot), |n: NodeView| map_or_key_value_list(n)),
{
    match slot {
        Some(node) => deserialize_map_or_key_value_list(node),
        None => Ok(empty_map()),
    }
}

/// Read a map that may be missing, or written as a list of keys with
/// optional values.
pub fn decode_map_or_key_optional_value_list(slot: Option<&Node>) -> (r: Result<
    SortedMap<Option<RawOr<String>>>,
    Error,
>)
    ensures
        decode_result(r) == map_of(
            slot_view(slot),
            |n: NodeView| map_or_key_optional_value_list(n),
        ),
{
    match slot {
        Some(node) => deserialize_map_or_key_optional_value_list(node),
        None => Ok(empty_map()),
    }
}

/// Read a map that may be missing, or written as a list of its keys.
pub fn decode_map_or_default_list<T: FromNode + DefaultValue>(slot: Option<&Node>) -> (r: Result<
    SortedMap<T>,
    Error,
>)
    ensures
        decode_result(r) == map_of(slot_view(slot), |n: NodeView| map_or_default_list::<T>(n)),
{
    match slot {
        Some(node) => deserialize_map_or_default_list(node),
        None => Ok(empty_map()),
    }
}

/// Read a map that may be missing, and whose keys may stand without a
/// value.
pub fn decode_map_struct_or_null<T: FromNode + DefaultValue>(slot: Option<&Node>) -> (r: Result<
    SortedMap<T>,
    Error,
>)
    ensures
        decode_result(r) == map_of(slot_view(slot), |n: NodeView| map_struct_or_null::<T>(n)),
{
    match slot {
        Some(node) => deserialize_map_struct_or_null(node),
        None => Ok(empty_map()),
    }
}

/// What reading a flag yields: false, if it is missing.
pub open spec fn flag_of(slot: Option<NodeView>) -> Result<bool, ErrorView> {
    match slot {
        Some(node) => bool::decoded(node),
        None => Ok(false),
    }
}

/// Read a flag, which is false if it is missing.
pub fn decode_flag(slot: Option<&Node>) -> (r: Result<bool, Error>)
    ensures
        decode_result(r) == flag_of(slot_view(slot)),
{
    match slot {
        Some(node) => bool::from_node(node),
        None => Ok(false),
    }
}

/// What reading a value that may be written as `true` yields: nothing, if
/// it is missing.
pub open spec fn true_or_struct_of<T: FromNode + DefaultValue>(slot: Option<NodeView>) -> Result<
    Option<T::V>,
    ErrorView,
> {
    match slot {
        Some(node) => opt_true_or_struct::<T>(node),
        None => Ok(None),
    }
}

/// Read a value that may be missing, or written as `true`.
pub fn decode_true_or_struct<T: FromNode + DefaultValue>(slot: Option<&Node>) -> (r: Result<
    Option<T>,
    Error,
>)
    ensures
        decode_result(r) == true_or_struct_of::<T>(slot_view(slot)),
{
    match slot {
        Some(node) => deserialize_opt_true_or_struct(node),
        None => Ok(None),
    }
}

/// The node of a field that is always written.
pub open spec fn required_node<T: ToNode>(v: T::V) -> Option<NodeView> {
    Some(T::encoded(v))
}

/// The node of a field that is always written.
pub fn encode_required<T: ToNode>(value: &T) -> (r: Option<Node>)
    requires
        T::writable(value.deep_view()),
    ensures
        option_view(r) == required_node::<T>(value.deep_view()),
{
    Some(value.to_node())
}

/// A node that may be missing, as a plain value.
pub open spec fn option_view(node: Option<Node>) -> Option<NodeView> {
    match node {
        Some(n) => Some(n.deep_view()),
        None => None,
    }
}

/// The node of a field that is left out if it has no value.
pub open spec fn optional_node<T: ToNode>(v: Option<T::V>) -> Option<NodeView> {
    match v {
        Some(x) => Some(T::encoded(x)),
        None => None,
    }
}

/// The node of a field that is left out if it has no value.
pub fn encode_optional<T: ToNode>(value: &Option<T>) -> (r: Option<Node>)
    requires
        Option::<T>::writable(value.deep_view()),
    ensures
        option_view(r) == optional_node::<T>(value.deep_view()),
{
    match value {
        Some(x) => Some(x.to_node()),
        None => None,
    }
}

/// The node of a list that is left out if it is empty.
pub open spec fn list_node<T: ToNode>(v: Seq<T::V>) -> Option<NodeView> {
    if v.len() == 0 {
        None
    } else {
        Some(Vec::<T>::encoded(v))
    }
}

/// The node of a list that is left out if it is empty.
pub fn encode_list<T: ToNode>(value: &Vec<T>) -> (r: Option<Node>)
    requires
        Vec::<T>::writable(value.deep_view()),
    ensures
        option_view(r) == list_node::<T>(value.deep_view()),
{
    if value.len() == 0 {
        None
    } else {
        Some(value.to_node())
    }
}

/// The node of a map that is left out if it is empty.
pub open spec fn map_node<T: ToNode>(v: Map<Seq<char>, T::V>) -> Option<NodeView> {
    if v == Map::<Seq<char>, T::V>::empty() {
        None
    } else {
        Some(SortedMap::<T>::encoded(v))
    }
}

/// The node of a map that is left out if it is empty.
pub fn encode_map<T: ToNode>(value: &SortedMap<T>) -> (r: Option<Node>)
    requires
        SortedMap::<T>::writable(value.deep_view()),
    ensures
        option_view(r) == map_node::<T>(value.deep_view()),
{
    if value.has_no_entries() {
        None
    } else {
        Some(value.to_node())
    }
}

/// The node of a flag, which is left out if it is false.
pub open spec fn flag_node(v: bool) -> Option<NodeView> {
    if v {
        Some(NodeView::Bool(true))
    } else {
        None
    }
}

/// The node of a flag, which is left out if it is false.
pub fn encode_flag(value: &bool) -> (r: Option<Node>)
    ensures
        option_view(r) == flag_node(*value),
{
    if is_false(value) {
        None
    } else {
        Some(Node::Bool(true))
    }
}

/// The node of a value that may be written as `true`, and is left out if
/// there is none.
pub open spec fn true_or_struct_node<T: ToNode + DefaultValue>(v: Option<T::V>) -> Option<
    NodeView,
> {
    match v {
        Some(x) => Some(true_or_struct_encoded::<T>(x)),
        None => None,
    }
}

/// The node of a value that may be written as `true`, and is left out if
/// there is none.
pub fn encode_true_or_struct<T: ToNode + DefaultValue>(value: &Option<T>) -> (r: Option<Node>)
    requires
        Option::<T>::writable(value.deep_view()),
    ensures
        option_view(r) == true_or_struct_node::<T>(value.deep_view()),
{
    match value {
        Some(x) => Some(serialize_true_or_struct(x)),
        None => None,
    }
}

/// A leaf that is written and read again is the leaf that was written:
/// a valid value reads back as that value, and a string that was kept raw
/// as that string.
pub proof fn lemma_leaf_reads_back<V, T: InterpolatableValue<V = V>>(v: RawOrView<V>)
    requires
        RawOr::<T>::writable(v),
        v matches RawOrView::Raw(s) ==> must_stay_raw(s),
    ensures
        RawOr::<T>::decoded(RawOr::<T>::encoded(v)) == Ok::<_, ErrorView>(v),
{
    match v {
        RawOrView::Value(x) => {
            lemma_display_then_raw::<V, T>(x);
        },
        RawOrView::Raw(s) => {},
    }
}

/// A list that is written and read again is the list that was written, if
/// that holds of each of its items.
pub proof fn lemma_list_reads_back<V>(
    items: Seq<V>,
    encode: spec_fn(V) -> NodeView,
    decode: spec_fn(NodeView) -> Result<V, ErrorView>,
)
    requires
        forall|i: int| 0 <= i < items.len() ==> decode(encode(#[trigger] items[i])) == Ok::<
            _,
            ErrorView,
        >(items[i]),
    ensures
        decoded_items(items.map_values(encode), decode) == Ok::<_, ErrorView>(items),
    decreases items.len(),
{
    let nodes = items.map_values(encode);
    if items.len() == 0 {
        assert(items =~= Seq::<V>::empty());
    } else {
        let front = items.drop_last();
        assert forall|i: int| 0 <= i < front.len() implies decode(encode(#[trigger] front[i]))
            == Ok::<_, ErrorView>(front[i]) by {
            assert(front[i] == items[i]);
        }
        lemma_list_reads_back(front, encode, decode);
        assert(nodes.drop_last() =~= front.map_values(encode));
        assert(nodes.last() == encode(items.last()));
        assert(items[items.len() - 1] == items.last());
        assert(front.push(items.last()) =~= items);
    }
}

} // verus!
