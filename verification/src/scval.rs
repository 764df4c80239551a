//! Contract values as plain data, and what Stellar's crates say of them.
use soroban_sdk::xdr;
use soroban_sdk::xdr::WriteXdr;
use vstd::prelude::*;
use vstd::utf8::*;

verus! {

/// The most bytes that a symbol holds.
pub const SYMBOL_LIMIT: usize = 32;

/// The most bytes, items or entries that any other value holds.
pub const LENGTH_LIMIT: u32 = u32::MAX;

/// A symbol: a short name.
#[derive(Debug)]
pub struct ScSymbol(pub Vec<u8>);

/// A byte string.
#[derive(Debug)]
pub struct ScBytes(pub Vec<u8>);

/// A text, as its UTF-8 bytes.
#[derive(Debug)]
pub struct ScString(pub Vec<u8>);

/// A list of values.
#[derive(Debug)]
pub struct ScVec(pub Vec<ScVal>);

/// A map: its entries in the order of their keys.
#[derive(Debug)]
pub struct ScMap(pub Vec<ScMapEntry>);

/// One entry of a map.
#[derive(Debug)]
pub struct ScMapEntry {
    pub key: ScVal,
    pub val: ScVal,
}

/// The address of an account or of a contract.
#[derive(Clone, Copy, Debug)]
pub enum ScAddress {
    /// An account, by its ed25519 public key.
    Account([u8; 32]),
    /// A contract, by its hash.
    Contract([u8; 32]),
}

/// A value that a contract takes as an argument.
#[derive(Debug)]
pub enum ScVal {
    Void,
    Bool(bool),
    I64(i64),
    U64(u64),
    Address(ScAddress),
    Symbol(ScSymbol),
    Bytes(ScBytes),
    String(ScString),
    Vec(Option<ScVec>),
    MapVal(Option<ScMap>),
}

/// What a [`ScVal`] stands for.
pub enum ScTree {
    Void,
    Bool(bool),
    I64(i64),
    U64(u64),
    Address(ScAddress),
    Symbol(Seq<u8>),
    Bytes(Seq<u8>),
    String(Seq<u8>),
    Vec(Option<Seq<ScTree>>),
    MapVal(Option<Seq<EntryTree>>),
}

/// What a [`ScMapEntry`] stands for.
pub struct EntryTree {
    pub key: ScTree,
    pub val: ScTree,
}

/// The tree of one value.
pub open spec fn sc_tree(value: ScVal) -> ScTree
    decreases value,
{
    match value {
        ScVal::Void => ScTree::Void,
        ScVal::Bool(b) => ScTree::Bool(b),
        ScVal::I64(i) => ScTree::I64(i),
        ScVal::U64(u) => ScTree::U64(u),
        ScVal::Address(address) => ScTree::Address(address),
        ScVal::Symbol(symbol) => ScTree::Symbol(symbol.0@),
        ScVal::Bytes(bytes) => ScTree::Bytes(bytes.0@),
        ScVal::String(text) => ScTree::String(text.0@),
        ScVal::Vec(None) => ScTree::Vec(None),
        ScVal::Vec(Some(items)) => ScTree::Vec(Some(sc_trees(items.0@))),
        ScVal::MapVal(None) => ScTree::MapVal(None),
        ScVal::MapVal(Some(entries)) => ScTree::MapVal(Some(entry_trees(entries.0@))),
    }
}

/// The trees of a list of values.
pub open spec fn sc_trees(items: Seq<ScVal>) -> Seq<ScTree>
    decreases items,
{
    Seq::new(items.len(), |i: int|
        if 0 <= i < items.len() { sc_tree(items[i]) } else { arbitrary() })
}

/// The tree of one entry.
pub open spec fn entry_tree(entry: ScMapEntry) -> EntryTree
    decreases entry,
{
    EntryTree { key: sc_tree(entry.key), val: sc_tree(entry.val) }
}

/// The trees of a list of entries.
pub open spec fn entry_trees(entries: Seq<ScMapEntry>) -> Seq<EntryTree>
    decreases entries,
{
    Seq::new(entries.len(), |i: int|
        if 0 <= i < entries.len() { entry_tree(entries[i]) } else { arbitrary() })
}

impl View for ScVal {
    type V = ScTree;

    open spec fn view(&self) -> ScTree {
        sc_tree(*self)
    }
}

impl View for ScMapEntry {
    type V = EntryTree;

    open spec fn view(&self) -> EntryTree {
        entry_tree(*self)
    }
}

/// Calls `ScSymbol::try_from` of `soroban_sdk::xdr` on a text. Claims that it keeps the UTF-8 bytes
/// of a text of at most [`SYMBOL_LIMIT`] bytes and refuses a longer one.
#[verifier::external_body]
pub(crate) fn symbol_from_text(text: &str) -> (r: Option<Vec<u8>>)
    ensures
        r is Some <==> encode_utf8(text@).len() <= SYMBOL_LIMIT,
        r matches Some(bytes) ==> bytes@ == encode_utf8(text@),
{
    xdr::ScSymbol::try_from(text).ok().map(|symbol| symbol.0.into())
}

/// Calls `ScBytes::try_from` of `soroban_sdk::xdr` on a byte vector. Claims that it keeps the bytes
/// of one of at most [`LENGTH_LIMIT`] bytes and refuses a longer one.
#[verifier::external_body]
pub(crate) fn bounded_bytes(bytes: Vec<u8>) -> (r: Option<Vec<u8>>)
    ensures
        r is Some <==> bytes@.len() <= LENGTH_LIMIT,
        r matches Some(kept) ==> kept@ == bytes@,
{
    xdr::ScBytes::try_from(bytes).ok().map(|kept| kept.0.into())
}

/// Calls `StringM::try_from` of `soroban_sdk::xdr` on a byte vector. Claims that it keeps the bytes
/// of one of at most [`LENGTH_LIMIT`] bytes and refuses a longer one.
#[verifier::external_body]
pub(crate) fn bounded_string(bytes: Vec<u8>) -> (r: Option<Vec<u8>>)
    ensures
        r is Some <==> bytes@.len() <= LENGTH_LIMIT,
        r matches Some(kept) ==> kept@ == bytes@,
{
    let kept: Result<xdr::StringM, xdr::Error> = bytes.try_into();
    kept.ok().map(|kept| kept.into())
}

/// Calls `VecM::try_from` of `soroban_sdk::xdr` on a vector. Claims that it keeps the items of one
/// of at most [`LENGTH_LIMIT`] items and refuses a longer one.
#[verifier::external_body]
pub(crate) fn bounded_items<T>(items: Vec<T>) -> (r: Option<Vec<T>>)
    ensures
        r is Some <==> items@.len() <= LENGTH_LIMIT,
        r matches Some(kept) ==> kept@ == items@,
{
    let kept: Result<xdr::VecM<T>, xdr::Error> = items.try_into();
    kept.ok().map(|kept| kept.into())
}

/// How many zero bytes fill a byte string up to a multiple of four.
pub open spec fn xdr_padding(len: nat) -> nat {
    ((4 - len % 4) % 4) as nat
}

/// The XDR encoding of a symbol value: the tag of symbols, the length, the bytes, the padding.
pub open spec fn symbol_xdr(symbol: Seq<u8>) -> Seq<u8> {
    seq![0u8, 0u8, 0u8, 15u8, 0u8, 0u8, 0u8, symbol.len() as u8] + symbol + Seq::new(
        xdr_padding(symbol.len()),
        |i: int| 0u8,
    )
}

/// Calls `to_xdr` of `soroban_sdk::xdr::WriteXdr`, without limits, on a symbol value. Claims that
/// it writes the bytes that [`symbol_xdr`] states. A longer symbol is no symbol value.
#[verifier::external_body]
fn symbol_to_xdr(symbol: &Vec<u8>) -> (r: Vec<u8>)
    requires
        symbol@.len() <= SYMBOL_LIMIT,
    ensures
        r@ == symbol_xdr(symbol@),
{
    let symbol = xdr::ScSymbol::try_from(symbol.clone()).unwrap();
    xdr::ScVal::Symbol(symbol).to_xdr(xdr::Limits::none()).unwrap_or_default()
}

/// The order of byte strings: by the first byte that differs, a prefix first.
pub open spec fn bytes_before(a: Seq<u8>, b: Seq<u8>) -> bool
    decreases a.len(),
{
    if b.len() == 0 {
        false
    } else if a.len() == 0 {
        true
    } else if a[0] == b[0] {
        bytes_before(a.skip(1), b.skip(1))
    } else {
        a[0] < b[0]
    }
}

/// Whether the first of two byte strings stands before the second.
fn is_before(a: &Vec<u8>, b: &Vec<u8>) -> (r: bool)
    ensures
        r == bytes_before(a@, b@),
{
    let mut i: usize = 0;
    assert(a@.skip(0) == a@);
    assert(b@.skip(0) == b@);
    while i < a.len() && i < b.len()
        invariant
            i <= a@.len(),
            i <= b@.len(),
            bytes_before(a@, b@) == bytes_before(a@.skip(i as int), b@.skip(i as int)),
        decreases a@.len() - i,
    {
        if a[i] != b[i] {
            return a[i] < b[i];
        }
        assert(a@.skip(i as int).skip(1) == a@.skip(i + 1));
        assert(b@.skip(i as int).skip(1) == b@.skip(i + 1));
        i += 1;
    }
    i < b.len()
}

/// Whether the first of two entries, both with a symbol for a key, stands before the second.
pub open spec fn entry_before(a: EntryTree, b: EntryTree) -> bool {
    bytes_before(symbol_xdr(a.key->Symbol_0), symbol_xdr(b.key->Symbol_0))
}

/// Sets an entry into entries in order, behind those that do not stand after it.
pub open spec fn with_entry(entries: Seq<EntryTree>, entry: EntryTree) -> Seq<EntryTree>
    decreases entries.len(),
{
    if entries.len() == 0 || !entry_before(entry, entries.last()) {
        entries.push(entry)
    } else {
        with_entry(entries.drop_last(), entry).push(entries.last())
    }
}

/// The entries in the order of their keys; those with one key keep their order.
pub open spec fn in_key_order(entries: Seq<EntryTree>) -> Seq<EntryTree>
    decreases entries.len(),
{
    if entries.len() == 0 {
        entries
    } else {
        with_entry(in_key_order(entries.drop_last()), entries.last())
    }
}

/// Whether an entry has a symbol for a key.
pub open spec fn has_symbol_key(entry: EntryTree) -> bool {
    entry.key is Symbol && entry.key->Symbol_0.len() <= SYMBOL_LIMIT
}

/// The XDR encoding of an entry's key.
fn key_xdr(entry: &ScMapEntry) -> (r: Vec<u8>)
    requires
        has_symbol_key(entry@),
    ensures
        r@ == symbol_xdr(entry@.key->Symbol_0),
{
    match &entry.key {
        ScVal::Symbol(symbol) => symbol_to_xdr(&symbol.0),
        _ => Vec::new(),
    }
}

/// Sets an entry into entries in order, behind those that do not stand after it.
pub(crate) fn insert_entry(entries: &mut Vec<ScMapEntry>, entry: ScMapEntry)
    requires
        forall|i: int| 0 <= i < old(entries)@.len() ==> has_symbol_key(#[trigger] old(entries)@[i]@),
        has_symbol_key(entry@),
    ensures
        entry_trees(final(entries)@) == with_entry(entry_trees(old(entries)@), entry@),
        forall|i: int|
            0 <= i < final(entries)@.len() ==> has_symbol_key(#[trigger] final(entries)@[i]@),
{
    let ghost before = entries@;
    let ghost trees = entry_trees(before);
    let key = key_xdr(&entry);
    let mut place: usize = entries.len();
    while place > 0
        invariant
            place <= entries@.len(),
            entries@ == before,
            trees == entry_trees(before),
            key@ == symbol_xdr(entry@.key->Symbol_0),
            forall|i: int| 0 <= i < before.len() ==> has_symbol_key(#[trigger] before[i]@),
            forall|i: int| place <= i < trees.len() ==> entry_before(entry@, #[trigger] trees[i]),
        ensures
            place <= before.len(),
            place == 0 || !entry_before(entry@, trees[place - 1]),
        decreases place,
    {
        assert(has_symbol_key(before[place - 1]@));
        let other = key_xdr(&entries[place - 1]);
        if !is_before(&key, &other) {
            break;
        }
        place -= 1;
    }
    proof {
        lemma_with_entry(trees, entry@, place as int);
    }
    let ghost added = entry;
    entries.insert(place, entry);
    proof {
        assert(entry_trees(entries@) =~= trees.insert(place as int, added@));
        assert forall|i: int| 0 <= i < entries@.len() implies has_symbol_key(
            #[trigger] entries@[i]@,
        ) by {
            if i < place {
                assert(entries@[i] == before[i]);
            } else if i > place {
                assert(entries@[i] == before[i - 1]);
            }
        }
    }
}

/// An entry goes in front of exactly those that stand after it, where they are the last ones.
proof fn lemma_with_entry(entries: Seq<EntryTree>, entry: EntryTree, place: int)
    requires
        0 <= place <= entries.len(),
        forall|i: int| place <= i < entries.len() ==> entry_before(entry, #[trigger] entries[i]),
        place == 0 || !entry_before(entry, entries[place - 1]),
    ensures
        with_entry(entries, entry) == entries.insert(place, entry),
    decreases entries.len(),
{
    if place == entries.len() {
        assert(entries.insert(place, entry) =~= entries.push(entry));
    } else {
        let rest = entries.drop_last();
        lemma_with_entry(rest, entry, place);
        assert(entries.insert(place, entry) =~= rest.insert(place, entry).push(entries.last()));
    }
}

/// Setting an entry in makes the entries one longer.
proof fn lemma_with_entry_len(entries: Seq<EntryTree>, entry: EntryTree)
    ensures
        with_entry(entries, entry).len() == entries.len() + 1,
    decreases entries.len(),
{
    if entries.len() > 0 && entry_before(entry, entries.last()) {
        lemma_with_entry_len(entries.drop_last(), entry);
    }
}

/// Putting entries in order keeps their number.
pub proof fn lemma_key_order_len(entries: Seq<EntryTree>)
    ensures
        in_key_order(entries).len() == entries.len(),
    decreases entries.len(),
{
    if entries.len() > 0 {
        lemma_key_order_len(entries.drop_last());
        lemma_with_entry_len(in_key_order(entries.drop_last()), entries.last());
    }
}

/// No byte string stands before itself.
proof fn lemma_before_irreflexive(a: Seq<u8>)
    ensures
        !bytes_before(a, a),
    decreases a.len(),
{
    if a.len() > 0 {
        lemma_before_irreflexive(a.skip(1));
    }
}

/// Standing before is transitive.
proof fn lemma_before_transitive(a: Seq<u8>, b: Seq<u8>, c: Seq<u8>)
    requires
        bytes_before(a, b),
        bytes_before(b, c),
    ensures
        bytes_before(a, c),
    decreases a.len(),
{
    if a.len() > 0 && a[0] == b[0] && b[0] == c[0] {
        lemma_before_transitive(a.skip(1), b.skip(1), c.skip(1));
    }
}

/// Of two different byte strings one stands before the other.
proof fn lemma_before_total(a: Seq<u8>, b: Seq<u8>)
    requires
        !bytes_before(a, b),
        !bytes_before(b, a),
    ensures
        a == b,
    decreases a.len(),
{
    if a.len() > 0 && b.len() > 0 {
        lemma_before_total(a.skip(1), b.skip(1));
        assert(a =~= seq![a[0]] + a.skip(1));
        assert(b =~= seq![b[0]] + b.skip(1));
    } else {
        assert(a =~= b);
    }
}

/// Different symbols have different encodings.
proof fn lemma_symbol_xdr_injective(a: Seq<u8>, b: Seq<u8>)
    requires
        a.len() <= SYMBOL_LIMIT,
        b.len() <= SYMBOL_LIMIT,
        symbol_xdr(a) == symbol_xdr(b),
    ensures
        a == b,
{
    assert(symbol_xdr(a)[7] == a.len() as u8);
    assert(symbol_xdr(b)[7] == b.len() as u8);
    assert forall|i: int| 0 <= i < a.len() implies a[i] == b[i] by {
        assert(symbol_xdr(a)[8 + i] == a[i]);
        assert(symbol_xdr(b)[8 + i] == b[i]);
    }
    assert(a =~= b);
}

/// Whether no entry stands before one in front of it.
pub open spec fn in_order(entries: Seq<EntryTree>) -> bool {
    forall|i: int, j: int|
        0 <= i < j < entries.len() ==> !entry_before(#[trigger] entries[j], #[trigger] entries[i])
}

/// Setting an entry in keeps the order, and adds that entry and nothing else.
proof fn lemma_with_entry_in_order(entries: Seq<EntryTree>, entry: EntryTree)
    requires
        in_order(entries),
    ensures
        in_order(with_entry(entries, entry)),
        with_entry(entries, entry).to_multiset() == entries.to_multiset().insert(entry),
    decreases entries.len(),
{
    broadcast use vstd::seq_lib::group_to_multiset_ensures;

    let set_in = with_entry(entries, entry);
    if entries.len() == 0 {
    } else if !entry_before(entry, entries.last()) {
        assert forall|i: int, j: int| 0 <= i < j < set_in.len() implies !entry_before(
            #[trigger] set_in[j],
            #[trigger] set_in[i],
        ) by {
            if j == entries.len() && i < entries.len() - 1 && entry_before(entry, entries[i]) {
                lemma_not_before_transitive(entries[i], entries.last(), entry);
            }
        }
    } else {
        let rest = entries.drop_last();
        let last = entries.last();
        lemma_with_entry_in_order(rest, entry);
        lemma_with_entry_members(rest, entry);
        let inner = with_entry(rest, entry);
        assert(entries =~= rest.push(last));
        assert forall|i: int, j: int| 0 <= i < j < set_in.len() implies !entry_before(
            #[trigger] set_in[j],
            #[trigger] set_in[i],
        ) by {
            if j == inner.len() {
                assert(set_in[i] == inner[i]);
                if inner[i] == entry {
                    lemma_before_asymmetric(entry, last);
                } else {
                    let k = choose|k: int| 0 <= k < rest.len() && rest[k] == inner[i];
                    assert(entries[k] == inner[i]);
                }
            } else {
                assert(set_in[i] == inner[i] && set_in[j] == inner[j]);
            }
        }
        assert(set_in.to_multiset() =~= entries.to_multiset().insert(entry));
    }
}

/// Every entry after setting one in is that one or was there before.
proof fn lemma_with_entry_members(entries: Seq<EntryTree>, entry: EntryTree)
    ensures
        forall|i: int|
            0 <= i < with_entry(entries, entry).len() ==> (#[trigger] with_entry(entries, entry)[i])
                == entry || entries.contains(with_entry(entries, entry)[i]),
    decreases entries.len(),
{
    let set_in = with_entry(entries, entry);
    if entries.len() > 0 && entry_before(entry, entries.last()) {
        let rest = entries.drop_last();
        lemma_with_entry_members(rest, entry);
        assert forall|i: int| 0 <= i < set_in.len() implies (#[trigger] set_in[i]) == entry
            || entries.contains(set_in[i]) by {
            if i == set_in.len() - 1 {
                assert(entries[entries.len() - 1] == set_in[i]);
            } else {
                let inner = with_entry(rest, entry);
                assert(set_in[i] == inner[i]);
                if inner[i] != entry {
                    let k = choose|k: int| 0 <= k < rest.len() && rest[k] == inner[i];
                    assert(entries[k] == inner[i]);
                }
            }
        }
    } else {
        assert forall|i: int| 0 <= i < set_in.len() implies (#[trigger] set_in[i]) == entry
            || entries.contains(set_in[i]) by {
            if i < entries.len() {
                assert(entries[i] == set_in[i]);
            }
        }
    }
}

/// Of two entries at most one stands before the other.
proof fn lemma_before_asymmetric(a: EntryTree, b: EntryTree)
    requires
        entry_before(a, b),
    ensures
        !entry_before(b, a),
{
    let (x, y) = (symbol_xdr(a.key->Symbol_0), symbol_xdr(b.key->Symbol_0));
    if bytes_before(y, x) {
        lemma_before_transitive(x, y, x);
        lemma_before_irreflexive(x);
    }
}

/// Not standing before is transitive.
proof fn lemma_not_before_transitive(a: EntryTree, b: EntryTree, c: EntryTree)
    requires
        !entry_before(b, a),
        !entry_before(c, b),
    ensures
        !entry_before(c, a),
{
    let (x, y, z) = (
        symbol_xdr(a.key->Symbol_0),
        symbol_xdr(b.key->Symbol_0),
        symbol_xdr(c.key->Symbol_0),
    );
    if bytes_before(z, x) {
        if bytes_before(x, y) {
            lemma_before_transitive(z, x, y);
        } else {
            lemma_before_total(x, y);
        }
    }
}

/// Putting entries in order leaves none before one in front of it, and changes nothing else: the
/// same entries are there, each as often.
pub proof fn law_key_order(entries: Seq<EntryTree>)
    ensures
        in_order(in_key_order(entries)),
        in_key_order(entries).to_multiset() == entries.to_multiset(),
    decreases entries.len(),
{
    broadcast use vstd::seq_lib::group_to_multiset_ensures;

    if entries.len() > 0 {
        law_key_order(entries.drop_last());
        lemma_with_entry_in_order(in_key_order(entries.drop_last()), entries.last());
        assert(entries =~= entries.drop_last().push(entries.last()));
    }
}

/// A common beginning does not change which byte string stands first.
proof fn lemma_before_prefix(start: Seq<u8>, a: Seq<u8>, b: Seq<u8>)
    ensures
        bytes_before(start + a, start + b) == bytes_before(a, b),
    decreases start.len(),
{
    if start.len() == 0 {
        assert(start + a =~= a);
        assert(start + b =~= b);
    } else {
        lemma_before_prefix(start.skip(1), a, b);
        assert((start + a).skip(1) =~= start.skip(1) + a);
        assert((start + b).skip(1) =~= start.skip(1) + b);
    }
}

/// A common end does not change which of two byte strings of one length stands first.
proof fn lemma_before_suffix(a: Seq<u8>, b: Seq<u8>, end: Seq<u8>)
    requires
        a.len() == b.len(),
    ensures
        bytes_before(a + end, b + end) == bytes_before(a, b),
    decreases a.len(),
{
    if a.len() == 0 {
        assert(a + end =~= end);
        assert(b + end =~= end);
        lemma_before_irreflexive(end);
    } else {
        lemma_before_suffix(a.skip(1), b.skip(1), end);
        assert((a + end).skip(1) =~= a.skip(1) + end);
        assert((b + end).skip(1) =~= b.skip(1) + end);
    }
}

/// Keys stand in the order of their lengths, and keys of one length in that of their bytes.
pub proof fn law_shorter_keys_first(a: EntryTree, b: EntryTree)
    requires
        has_symbol_key(a),
        has_symbol_key(b),
    ensures
        entry_before(a, b) <==> {
            let (x, y) = (a.key->Symbol_0, b.key->Symbol_0);
            x.len() < y.len() || (x.len() == y.len() && bytes_before(x, y))
        },
{
    let (x, y) = (a.key->Symbol_0, b.key->Symbol_0);
    let start = seq![0u8, 0u8, 0u8, 15u8, 0u8, 0u8, 0u8];
    let (pad_x, pad_y) = (
        Seq::new(xdr_padding(x.len()), |i: int| 0u8),
        Seq::new(xdr_padding(y.len()), |i: int| 0u8),
    );
    let (rest_x, rest_y) = (seq![x.len() as u8] + (x + pad_x), seq![y.len() as u8] + (y + pad_y));
    assert(symbol_xdr(x) =~= start + rest_x);
    assert(symbol_xdr(y) =~= start + rest_y);
    lemma_before_prefix(start, rest_x, rest_y);
    if x.len() == y.len() {
        lemma_before_prefix(seq![x.len() as u8], x + pad_x, y + pad_y);
        lemma_before_suffix(x, y, pad_x);
    } else {
        assert(rest_x[0] == x.len() && rest_y[0] == y.len());
    }
}

/// Whether entries with one key are one entry.
pub open spec fn keys_decide(entries: Seq<EntryTree>) -> bool {
    forall|i: int, j: int|
        0 <= i < entries.len() && 0 <= j < entries.len() && (#[trigger] entries[i]).key == (
        #[trigger] entries[j]).key ==> entries[i] == entries[j]
}

/// Two sequences in order with the same entries are one sequence.
proof fn lemma_order_unique(x: Seq<EntryTree>, y: Seq<EntryTree>)
    requires
        in_order(x),
        in_order(y),
        x.to_multiset() == y.to_multiset(),
        keys_decide(x),
        forall|i: int| 0 <= i < x.len() ==> has_symbol_key(#[trigger] x[i]),
    ensures
        x == y,
    decreases x.len(),
{
    broadcast use vstd::seq_lib::group_to_multiset_ensures;

    assert(x.len() == x.to_multiset().len());
    assert(y.len() == y.to_multiset().len());
    if x.len() > 0 {
        let (last_x, last_y) = (x.last(), y.last());
        assert(y.to_multiset().contains(last_y));
        assert(x.contains(last_y));
        let k = choose|k: int| 0 <= k < x.len() && x[k] == last_y;
        assert(x.to_multiset().contains(last_x));
        assert(y.contains(last_x));
        let l = choose|l: int| 0 <= l < y.len() && y[l] == last_x;
        let (key_x, key_y) = (last_x.key->Symbol_0, last_y.key->Symbol_0);
        assert(has_symbol_key(x[k]) && has_symbol_key(x[x.len() - 1]));
        if last_x != last_y {
            assert(!entry_before(x[x.len() - 1], x[k]));
            assert(!entry_before(y[y.len() - 1], y[l]));
            lemma_before_total(symbol_xdr(key_x), symbol_xdr(key_y));
            lemma_symbol_xdr_injective(key_x, key_y);
        }
        assert(x =~= x.drop_last().push(last_x));
        assert(y =~= y.drop_last().push(last_y));
        assert(x.drop_last().to_multiset() =~= x.to_multiset().remove(last_x));
        assert(y.drop_last().to_multiset() =~= y.to_multiset().remove(last_y));
        lemma_order_unique(x.drop_last(), y.drop_last());
    } else {
        assert(x =~= y);
    }
}

/// The order in which entries come makes no difference: where entries with one key are one entry,
/// two lists of the same entries are put in one and the same order.
pub proof fn law_key_order_unique(a: Seq<EntryTree>, b: Seq<EntryTree>)
    requires
        a.to_multiset() == b.to_multiset(),
        keys_decide(a),
        forall|i: int| 0 <= i < a.len() ==> has_symbol_key(#[trigger] a[i]),
    ensures
        in_key_order(a) == in_key_order(b),
{
    broadcast use vstd::seq_lib::group_to_multiset_ensures;

    law_key_order(a);
    law_key_order(b);
    let x = in_key_order(a);
    assert forall|i: int| 0 <= i < x.len() implies a.contains(#[trigger] x[i]) by {
        assert(x.contains(x[i]));
        assert(x.to_multiset().contains(x[i]));
    }
    assert forall|i: int| 0 <= i < x.len() implies has_symbol_key(#[trigger] x[i]) by {
        assert(a.contains(x[i]));
    }
    assert forall|i: int, j: int|
        0 <= i < x.len() && 0 <= j < x.len() && (#[trigger] x[i]).key == (
        #[trigger] x[j]).key implies x[i] == x[j] by {
        assert(a.contains(x[i]) && a.contains(x[j]));
    }
    lemma_order_unique(x, in_key_order(b));
}

/// A byte string stands before another if it has the lesser byte at the first place where they differ,
/// or is a proper beginning of it.
pub proof fn law_first_difference_decides(a: Seq<u8>, b: Seq<u8>, at: int)
    requires
        0 <= at <= a.len(),
        at <= b.len(),
        a.take(at) == b.take(at),
        at < a.len() && at < b.len() ==> a[at] != b[at],
    ensures
        at < a.len() && at < b.len() ==> (bytes_before(a, b) <==> a[at] < b[at]),
        at == a.len() && at < b.len() ==> bytes_before(a, b),
        at == b.len() ==> !bytes_before(a, b),
{
    let (start, x, y) = (a.take(at), a.skip(at), b.skip(at));
    assert(a =~= start + x);
    assert(b =~= start + y);
    lemma_before_prefix(start, x, y);
    if at == a.len() && at == b.len() {
        assert(x =~= y);
        lemma_before_irreflexive(x);
    }
}

/// Setting an entry in puts it behind the others of its key, and leaves all keys in their order.
proof fn lemma_with_entry_of_key(entries: Seq<EntryTree>, entry: EntryTree, key: ScTree)
    ensures
        with_entry(entries, entry).filter(|e: EntryTree| e.key == key) == if entry.key == key {
            entries.filter(|e: EntryTree| e.key == key).push(entry)
        } else {
            entries.filter(|e: EntryTree| e.key == key)
        },
    decreases entries.len(),
{
    reveal(Seq::filter);
    let of_key = |e: EntryTree| e.key == key;
    if entries.len() == 0 || !entry_before(entry, entries.last()) {
        assert(entries.push(entry).drop_last() =~= entries);
    } else {
        let rest = entries.drop_last();
        lemma_with_entry_of_key(rest, entry, key);
        assert(with_entry(rest, entry).push(entries.last()).drop_last() =~= with_entry(
            rest,
            entry,
        ));
        if entry.key == entries.last().key {
            lemma_before_irreflexive(symbol_xdr(entry.key->Symbol_0));
        }
    }
}

/// Entries with one key keep their order.
pub proof fn law_equal_keys_keep_their_order(entries: Seq<EntryTree>, key: ScTree)
    ensures
        in_key_order(entries).filter(|e: EntryTree| e.key == key) == entries.filter(
            |e: EntryTree| e.key == key,
        ),
    decreases entries.len(),
{
    reveal(Seq::filter);
    if entries.len() > 0 {
        law_equal_keys_keep_their_order(entries.drop_last(), key);
        lemma_with_entry_of_key(in_key_order(entries.drop_last()), entries.last(), key);
    }
}

/// A value stands for what it holds: a scalar for itself, a text for its bytes, a list for its items
/// and a map for its entries, each at its place.
pub proof fn law_values_stand_for_what_they_hold(value: ScVal)
    ensures
        value is Void <==> value@ is Void,
        value matches ScVal::Bool(b) ==> value@ == ScTree::Bool(b),
        value matches ScVal::I64(i) ==> value@ == ScTree::I64(i),
        value matches ScVal::U64(u) ==> value@ == ScTree::U64(u),
        value matches ScVal::Address(address) ==> value@ == ScTree::Address(address),
        value matches ScVal::Symbol(symbol) ==> value@ == ScTree::Symbol(symbol.0@),
        value matches ScVal::Bytes(bytes) ==> value@ == ScTree::Bytes(bytes.0@),
        value matches ScVal::String(text) ==> value@ == ScTree::String(text.0@),
        value matches ScVal::Vec(None) ==> value@ == ScTree::Vec(None),
        value matches ScVal::Vec(Some(items)) ==> value@ matches ScTree::Vec(Some(trees))
            && trees.len() == items.0@.len() && forall|i: int|
            0 <= i < items.0@.len() ==> #[trigger] trees[i] == items.0@[i]@,
        value matches ScVal::MapVal(None) ==> value@ == ScTree::MapVal(None),
        value matches ScVal::MapVal(Some(entries)) ==> value@ matches ScTree::MapVal(Some(trees))
            && trees.len() == entries.0@.len() && forall|i: int|
            0 <= i < entries.0@.len() ==> (#[trigger] trees[i]).key == entries.0@[i].key@
                && trees[i].val == entries.0@[i].val@,
{
    if let ScVal::MapVal(Some(entries)) = value {
        let trees = value@->MapVal_0->0;
        assert forall|i: int| 0 <= i < entries.0@.len() implies (#[trigger] trees[i]).key
            == entries.0@[i].key@ && trees[i].val == entries.0@[i].val@ by {
            assert(trees[i] == entry_tree(entries.0@[i]));
        }
    }
}

} // verus!
