//! Turning JSON arguments into contract values.
use crate::json;
use crate::json::{Json, JsonMember, JsonTree, MemberTree, NumberTree};
use crate::scval;
use crate::scval::{
    EntryTree, ScAddress, ScBytes, ScMap, ScMapEntry, ScString, ScSymbol, ScTree, ScVal, ScVec,
    LENGTH_LIMIT, SYMBOL_LIMIT,
};
use crate::text;
use vstd::prelude::*;
use vstd::string::*;
use vstd::utf8::*;

verus! {

/// Why an argument was refused, and where in the document.
#[derive(Debug)]
pub enum ParserError {
    InvalidType { location: String, expected: String, found: String },
    InvalidSymbol { location: String, details: String },
    InvalidHex { location: String, details: String },
}

/// What a [`ParserError`] stands for.
pub enum ParserFault {
    InvalidType { location: Seq<char>, expected: Seq<char>, found: Seq<char> },
    InvalidSymbol { location: Seq<char>, details: Seq<char> },
    InvalidHex { location: Seq<char>, details: Seq<char> },
}

impl View for ParserError {
    type V = ParserFault;

    open spec fn view(&self) -> ParserFault {
        match *self {
            ParserError::InvalidType { location, expected, found } => ParserFault::InvalidType {
                location: location@,
                expected: expected@,
                found: found@,
            },
            ParserError::InvalidSymbol { location, details } => ParserFault::InvalidSymbol {
                location: location@,
                details: details@,
            },
            ParserError::InvalidHex { location, details } => ParserFault::InvalidHex {
                location: location@,
                details: details@,
            },
        }
    }
}

impl ParserFault {
    /// The place in the document.
    pub open spec fn place(self) -> Seq<char> {
        match self {
            ParserFault::InvalidType { location, .. } => location,
            ParserFault::InvalidSymbol { location, .. } => location,
            ParserFault::InvalidHex { location, .. } => location,
        }
    }

    /// The message for people.
    pub open spec fn message(self) -> Seq<char> {
        match self {
            ParserFault::InvalidType { location, expected, found } => "Invalid JSON type at "@
                + location + ": expected "@ + expected + ", found "@ + found,
            ParserFault::InvalidSymbol { location, details } => "Invalid symbol at "@ + location
                + ": "@ + details,
            ParserFault::InvalidHex { location, details } => "Invalid hex bytes at "@ + location
                + ": "@ + details,
        }
    }
}

impl ParserError {
    /// The message for people.
    pub fn to_string(&self) -> (text: String)
        ensures
            text@ == self@.message(),
    {
        match self {
            ParserError::InvalidType { location, expected, found } => {
                let mut text = "Invalid JSON type at ".to_owned();
                text.append(location.as_str());
                text.append(": expected ");
                text.append(expected.as_str());
                text.append(", found ");
                text.append(found.as_str());
                text
            },
            ParserError::InvalidSymbol { location, details } => {
                let mut text = "Invalid symbol at ".to_owned();
                text.append(location.as_str());
                text.append(": ");
                text.append(details.as_str());
                text
            },
            ParserError::InvalidHex { location, details } => {
                let mut text = "Invalid hex bytes at ".to_owned();
                text.append(location.as_str());
                text.append(": ");
                text.append(details.as_str());
                text
            },
        }
    }
}

/// A parse result by its views.
pub open spec fn parse_outcome(r: Result<ScVal, ParserError>) -> Result<ScTree, ParserFault> {
    match r {
        Ok(value) => Ok(value@),
        Err(error) => Err(error@),
    }
}

// ── Addresses ──────────────────────────────────────────────────────────────

/// A decoded Stellar key, as far as addresses need it.
#[derive(Clone, Copy, Debug)]
pub enum Strkey {
    /// An ed25519 public key.
    PublicKeyEd25519([u8; 32]),
    /// A contract's hash.
    Contract([u8; 32]),
    /// A key of any other kind.
    Other,
}

/// What `stellar_strkey::Strkey::from_string` makes of a text; `None` where it refuses it.
pub uninterp spec fn strkey_decoded(text: Seq<char>) -> Option<Strkey>;

/// Calls `stellar_strkey::Strkey::from_string`. Claims that the key is the one which
/// [`strkey_decoded`] names, and that the only refusal says that the key is invalid.
#[verifier::external_body]
fn decode_strkey(text: &str) -> (r: Result<Strkey, String>)
    ensures
        match r {
            Ok(key) => strkey_decoded(text@) == Some(key),
            Err(error) => strkey_decoded(text@) is None && error@ == "the strkey is invalid"@,
        },
{
    match stellar_strkey::Strkey::from_string(text) {
        Ok(stellar_strkey::Strkey::PublicKeyEd25519(key)) => Ok(Strkey::PublicKeyEd25519(key.0)),
        Ok(stellar_strkey::Strkey::Contract(contract)) => Ok(Strkey::Contract(contract.0)),
        Ok(_) => Ok(Strkey::Other),
        Err(e) => Err(e.to_string()),
    }
}

/// The address that a decoded key gives, where its kind is that of an address.
pub open spec fn key_address(key: Strkey) -> Option<ScAddress> {
    match key {
        Strkey::PublicKeyEd25519(bytes) => Some(ScAddress::Account(bytes)),
        Strkey::Contract(hash) => Some(ScAddress::Contract(hash)),
        Strkey::Other => None,
    }
}

/// The address that a text gives, where it is one.
pub open spec fn text_address(text: Seq<char>) -> Option<ScAddress> {
    match strkey_decoded(text) {
        Some(key) => key_address(key),
        None => None,
    }
}

/// Whether a text has the shape of an address: it starts with `G` or `C` and has 56 bytes.
pub open spec fn address_shaped(text: Seq<char>) -> bool {
    text.len() > 0 && (text[0] == 'G' || text[0] == 'C') && encode_utf8(text).len() == 56
}

/// Makes an address of a decoded key.
pub fn address_of_key(key: Strkey) -> (r: Result<ScAddress, String>)
    ensures
        match r {
            Ok(address) => key_address(key) == Some(address),
            Err(error) => key_address(key) is None && error@ == "Unsupported address type"@,
        },
{
    match key {
        Strkey::Contract(hash) => Ok(ScAddress::Contract(hash)),
        Strkey::PublicKeyEd25519(bytes) => Ok(ScAddress::Account(bytes)),
        Strkey::Other => Err("Unsupported address type".to_owned()),
    }
}

// ── Hex bytes ──────────────────────────────────────────────────────────────

/// Whether a byte is the character of a hex digit.
pub open spec fn is_hex_digit(byte: u8) -> bool {
    48 <= byte <= 57 || 65 <= byte <= 70 || 97 <= byte <= 102
}

/// The value of a hex digit.
pub open spec fn hex_digit_value(byte: u8) -> int {
    if byte <= 57 {
        byte - 48
    } else if byte <= 70 {
        byte - 55
    } else {
        byte - 87
    }
}

/// Whether a text is made of pairs of hex digits.
pub open spec fn is_hex(text: Seq<u8>) -> bool {
    text.len() % 2 == 0 && forall|i: int| 0 <= i < text.len() ==> is_hex_digit(#[trigger] text[i])
}

/// The bytes that pairs of hex digits write down.
pub open spec fn hex_bytes(text: Seq<u8>) -> Seq<u8> {
    Seq::new(
        text.len() / 2,
        |i: int| (16 * hex_digit_value(text[2 * i]) + hex_digit_value(text[2 * i + 1])) as u8,
    )
}

/// The place of the first byte that is no hex digit.
pub open spec fn first_other(text: Seq<u8>) -> nat
    decreases text.len(),
{
    if text.len() == 0 || !is_hex_digit(text[0]) {
        0
    } else {
        1 + first_other(text.skip(1))
    }
}

/// Whether a byte is a character that is written between quotes as it is.
pub open spec fn is_plain(byte: u8) -> bool {
    32 <= byte < 127 && byte != 39 && byte != 92
}

/// The text of the error with which `hex::decode` refuses a text.
pub uninterp spec fn hex_error(text: Seq<char>) -> Seq<char>;

/// Why a text is not made of pairs of hex digits: their number is odd, or a character is none. One
/// that has to be escaped is written as [`hex_error`] names it.
pub open spec fn hex_refusal(text: Seq<char>) -> Seq<char> {
    let bytes = encode_utf8(text);
    let place = first_other(bytes);
    if bytes.len() % 2 == 1 {
        "Odd number of digits"@
    } else if is_plain(bytes[place as int]) {
        "Invalid character '"@ + seq![bytes[place as int] as char] + "' at position "@
            + text::decimal(place)
    } else {
        hex_error(text)
    }
}

/// Calls `hex::decode`, and `to_string` on its error. Claims that it decodes exactly the texts of
/// pairs of hex digits, to the bytes that they write down, and refuses all others with the text that
/// [`hex_refusal`] states, of which [`hex_error`] is another name.
#[verifier::external_body]
fn decode_hex(text: &str) -> (r: Result<Vec<u8>, String>)
    ensures
        match r {
            Ok(bytes) => is_hex(encode_utf8(text@)) && bytes@ == hex_bytes(encode_utf8(text@)),
            Err(error) => {
                &&& !is_hex(encode_utf8(text@))
                &&& error@ == hex_error(text@)
                &&& error@ == hex_refusal(text@)
            },
        },
{
    hex::decode(text).map_err(|e| e.to_string())
}

// ── What a document means ──────────────────────────────────────────────────

/// The value of a text that starts with `0x`, given what follows.
pub open spec fn hex_value(digits: Seq<char>, path: Seq<char>) -> Result<ScTree, ParserFault> {
    let bytes = encode_utf8(digits);
    if !is_hex(bytes) {
        Err(ParserFault::InvalidHex { location: path, details: hex_refusal(digits) })
    } else if hex_bytes(bytes).len() <= LENGTH_LIMIT {
        Ok(ScTree::Bytes(hex_bytes(bytes)))
    } else {
        Err(
            ParserFault::InvalidHex {
                location: path,
                details: "Bytes exceed maximum allowed size"@,
            },
        )
    }
}

/// The value of a text that is no address.
pub open spec fn plain_text_value(text: Seq<char>, path: Seq<char>) -> Result<ScTree, ParserFault> {
    if text.len() >= 1 && text[0] == ':' {
        let symbol = encode_utf8(text.skip(1));
        if symbol.len() <= SYMBOL_LIMIT {
            Ok(ScTree::Symbol(symbol))
        } else {
            Err(
                ParserFault::InvalidSymbol {
                    location: path,
                    details: "Symbol must be 1-32 characters"@,
                },
            )
        }
    } else if text.len() >= 2 && text[0] == '0' && text[1] == 'x' {
        hex_value(text.skip(2), path)
    } else if encode_utf8(text).len() <= LENGTH_LIMIT {
        Ok(ScTree::String(encode_utf8(text)))
    } else {
        Err(
            ParserFault::InvalidType {
                location: path,
                expected: "shorter string"@,
                found: "string length exceeds limit"@,
            },
        )
    }
}

/// The value of a text, given the address that it decodes to, where it does.
pub open spec fn text_value(
    text: Seq<char>,
    path: Seq<char>,
    address: Option<ScAddress>,
) -> Result<ScTree, ParserFault> {
    match address {
        Some(address) if address_shaped(text) => Ok(ScTree::Address(address)),
        _ => plain_text_value(text, path),
    }
}

/// The value of a number.
pub open spec fn number_value(number: NumberTree, path: Seq<char>) -> Result<ScTree, ParserFault> {
    match (number.int, number.uint) {
        (Some(i), _) => Ok(ScTree::I64(i)),
        (None, Some(u)) => Ok(ScTree::U64(u)),
        (None, None) => Err(
            ParserFault::InvalidType {
                location: path,
                expected: "integer"@,
                found: "number "@ + number.text,
            },
        ),
    }
}

/// The path of an item of an array.
pub open spec fn item_path(path: Seq<char>, index: nat) -> Seq<char> {
    path + "["@ + text::decimal(index) + "]"@
}

/// The path of a member of an object.
pub open spec fn member_path(path: Seq<char>, key: Seq<char>) -> Seq<char> {
    path + "."@ + key
}

/// The values of the first `count` items of an array, or the first error among them.
pub open spec fn item_values(
    items: Seq<JsonTree>,
    path: Seq<char>,
    count: nat,
) -> Result<Seq<ScTree>, ParserFault>
    decreases items, count,
{
    if count == 0 || count > items.len() {
        Ok(Seq::empty())
    } else {
        match item_values(items, path, (count - 1) as nat) {
            Err(fault) => Err(fault),
            Ok(values) => match value_at(
                items[count - 1],
                item_path(path, (count - 1) as nat),
            ) {
                Err(fault) => Err(fault),
                Ok(value) => Ok(values.push(value)),
            },
        }
    }
}

/// The entries of the first `count` members of an object, or the first error among them. A key is
/// judged before its value.
pub open spec fn member_entries(
    members: Seq<MemberTree>,
    path: Seq<char>,
    count: nat,
) -> Result<Seq<EntryTree>, ParserFault>
    decreases members, count,
{
    if count == 0 || count > members.len() {
        Ok(Seq::empty())
    } else {
        match member_entries(members, path, (count - 1) as nat) {
            Err(fault) => Err(fault),
            Ok(entries) => {
                let member = members[count - 1];
                if encode_utf8(member.key).len() > SYMBOL_LIMIT {
                    Err(
                        ParserFault::InvalidSymbol {
                            location: member_path(path, member.key),
                            details: "Key name too long for symbol"@,
                        },
                    )
                } else {
                    match value_at(member.value, member_path(path, member.key)) {
                        Err(fault) => Err(fault),
                        Ok(val) => Ok(
                            entries.push(
                                EntryTree { key: ScTree::Symbol(encode_utf8(member.key)), val },
                            ),
                        ),
                    }
                }
            },
        }
    }
}

/// The contract value of the document that stands at a path.
pub open spec fn value_at(json: JsonTree, path: Seq<char>) -> Result<ScTree, ParserFault>
    decreases json, 0nat,
{
    match json {
        JsonTree::Null => Ok(ScTree::Void),
        JsonTree::Bool(b) => Ok(ScTree::Bool(b)),
        JsonTree::Number(n) => number_value(n, path),
        JsonTree::String(text) => text_value(text, path, text_address(text)),
        JsonTree::Array(items) => match item_values(items, path, items.len()) {
            Err(fault) => Err(fault),
            Ok(values) => if values.len() <= LENGTH_LIMIT {
                Ok(ScTree::Vec(Some(values)))
            } else {
                Err(
                    ParserFault::InvalidType {
                        location: path,
                        expected: "shorter vector"@,
                        found: "vector size exceeds limit"@,
                    },
                )
            },
        },
        JsonTree::Object(members) => match member_entries(members, path, members.len()) {
            Err(fault) => Err(fault),
            Ok(entries) => if entries.len() <= LENGTH_LIMIT {
                Ok(ScTree::MapVal(Some(scval::in_key_order(entries))))
            } else {
                Err(
                    ParserFault::InvalidType {
                        location: path,
                        expected: "smaller map"@,
                        found: "map size exceeds limit"@,
                    },
                )
            },
        },
    }
}

/// The contract value of a JSON text.
pub open spec fn text_document_value(
    document: Result<JsonTree, Seq<char>>,
) -> Result<ScTree, ParserFault> {
    match document {
        Ok(json) => value_at(json, "$"@),
        Err(error) => Err(
            ParserFault::InvalidType { location: "$"@, expected: "valid JSON"@, found: error },
        ),
    }
}

// ── The parser ─────────────────────────────────────────────────────────────

/// Turns JSON arguments into contract values.
pub struct ArgParser;

/// Writes the path of an item of an array.
fn item_path_text(path: &str, index: usize) -> (text: String)
    ensures
        text@ == item_path(path@, index as nat),
{
    let mut text = path.to_owned();
    text.append("[");
    text.append(text::decimal_text(index as u64).as_str());
    text.append("]");
    text
}

/// Writes the path of a member of an object.
fn member_path_text(path: &str, key: &str) -> (text: String)
    ensures
        text@ == member_path(path@, key@),
{
    let mut text = path.to_owned();
    text.append(".");
    text.append(key);
    text
}

/// Whether a text has the shape of an address.
fn is_address_shaped(text: &str) -> (r: bool)
    ensures
        r == address_shaped(text@),
{
    if text.unicode_len() == 0 {
        return false;
    }
    let first = text.get_char(0);
    (first == 'G' || first == 'C') && text.as_bytes().len() == 56
}

impl ArgParser {
    /// Parse a JSON string into a contract value.
    pub fn parse(json: &str) -> (r: Result<ScVal, ParserError>)
        ensures
            parse_outcome(r) == text_document_value(json::json_document(json@)),
    {
        match json::read_json(json) {
            Ok(value) => Self::parse_value(&value, "$"),
            Err(error) => Err(
                ParserError::InvalidType {
                    location: "$".to_owned(),
                    expected: "valid JSON".to_owned(),
                    found: error,
                },
            ),
        }
    }

    /// Parse a JSON document into a contract value recursively. `path` is where it stands.
    pub fn parse_value(value: &Json, path: &str) -> (r: Result<ScVal, ParserError>)
        ensures
            parse_outcome(r) == value_at(value@, path@),
        decreases value,
    {
        match value {
            Json::Null => Ok(ScVal::Void),
            Json::Bool(b) => Ok(ScVal::Bool(*b)),
            Json::Number(n) => {
                if let Some(i) = n.int {
                    Ok(ScVal::I64(i))
                } else if let Some(u) = n.uint {
                    Ok(ScVal::U64(u))
                } else {
                    let mut found = "number ".to_owned();
                    found.append(n.text.as_str());
                    Err(
                        ParserError::InvalidType {
                            location: path.to_owned(),
                            expected: "integer".to_owned(),
                            found,
                        },
                    )
                }
            },
            Json::String(s) => {
                let address = if is_address_shaped(s.as_str()) {
                    Self::parse_address(s.as_str()).ok()
                } else {
                    None
                };
                Self::parse_text(s.as_str(), path, address)
            },
            Json::Array(items) => Self::parse_items(items, path),
            Json::Object(members) => Self::parse_members(members, path),
        }
    }

    /// Parse a text, given the address that it decodes to, where it does.
    pub fn parse_text(s: &str, path: &str, address: Option<ScAddress>) -> (r: Result<
        ScVal,
        ParserError,
    >)
        ensures
            parse_outcome(r) == text_value(s@, path@, address),
    {
        // Address detection
        if is_address_shaped(s) {
            if let Some(address) = address {
                return Ok(ScVal::Address(address));
            }
        }
        let len: usize = s.unicode_len();

        // Symbol detection (prefixed with :)
        if len >= 1 && s.get_char(0) == ':' {
            let name = s.substring_char(1, len);
            assert(name@ == s@.skip(1));
            return match scval::symbol_from_text(name) {
                Some(symbol) => Ok(ScVal::Symbol(ScSymbol(symbol))),
                None => Err(
                    ParserError::InvalidSymbol {
                        location: path.to_owned(),
                        details: "Symbol must be 1-32 characters".to_owned(),
                    },
                ),
            };
        }
        // Hex bytes detection (prefixed with 0x)
        if len >= 2 && s.get_char(0) == '0' && s.get_char(1) == 'x' {
            let digits = s.substring_char(2, len);
            assert(digits@ == s@.skip(2));
            return match decode_hex(digits) {
                Err(error) => Err(
                    ParserError::InvalidHex { location: path.to_owned(), details: error },
                ),
                Ok(bytes) => match scval::bounded_bytes(bytes) {
                    Some(kept) => Ok(ScVal::Bytes(ScBytes(kept))),
                    None => Err(
                        ParserError::InvalidHex {
                            location: path.to_owned(),
                            details: "Bytes exceed maximum allowed size".to_owned(),
                        },
                    ),
                },
            };
        }
        // Default: treat as a string
        match scval::bounded_string(s.as_bytes_vec()) {
            Some(kept) => Ok(ScVal::String(ScString(kept))),
            None => Err(
                ParserError::InvalidType {
                    location: path.to_owned(),
                    expected: "shorter string".to_owned(),
                    found: "string length exceeds limit".to_owned(),
                },
            ),
        }
    }

    /// Parse the items of an array.
    fn parse_items(items: &Vec<Json>, path: &str) -> (r: Result<ScVal, ParserError>)
        ensures
            parse_outcome(r) == value_at(Json::Array(*items)@, path@),
        decreases items,
    {
        let ghost trees = Json::Array(*items)@->Array_0;
        let mut values: Vec<ScVal> = Vec::new();
        let mut i: usize = 0;
        assert(scval::sc_trees(values@) =~= Seq::<ScTree>::empty());
        while i < items.len()
            invariant
                i <= items@.len(),
                trees == Json::Array(*items)@->Array_0,
                item_values(trees, path@, i as nat) == Ok::<Seq<ScTree>, ParserFault>(
                    scval::sc_trees(values@),
                ),
            decreases items@.len() - i,
        {
            let place = item_path_text(path, i);
            match Self::parse_value(&items[i], place.as_str()) {
                Err(error) => {
                    proof {
                        lemma_items_stop(trees, path@, (i + 1) as nat, trees.len());
                    }
                    return Err(error);
                },
                Ok(value) => {
                    let ghost before = values@;
                    values.push(value);
                    assert(scval::sc_trees(values@) =~= scval::sc_trees(before).push(value@));
                },
            }
            i += 1;
        }
        match scval::bounded_items(values) {
            Some(kept) => Ok(ScVal::Vec(Some(ScVec(kept)))),
            None => Err(
                ParserError::InvalidType {
                    location: path.to_owned(),
                    expected: "shorter vector".to_owned(),
                    found: "vector size exceeds limit".to_owned(),
                },
            ),
        }
    }

    /// Parse the members of an object.
    fn parse_members(members: &Vec<JsonMember>, path: &str) -> (r: Result<ScVal, ParserError>)
        ensures
            parse_outcome(r) == value_at(Json::Object(*members)@, path@),
        decreases members,
    {
        let ghost trees = Json::Object(*members)@->Object_0;
        let ghost mut parsed = Seq::<EntryTree>::empty();
        let mut entries: Vec<ScMapEntry> = Vec::new();
        let mut i: usize = 0;
        assert(scval::entry_trees(entries@) =~= Seq::<EntryTree>::empty());
        while i < members.len()
            invariant
                i <= members@.len(),
                trees == Json::Object(*members)@->Object_0,
                member_entries(trees, path@, i as nat) == Ok::<Seq<EntryTree>, ParserFault>(parsed),
                scval::entry_trees(entries@) == scval::in_key_order(parsed),
                forall|k: int|
                    0 <= k < entries@.len() ==> scval::has_symbol_key(#[trigger] entries@[k]@),
            decreases members@.len() - i,
        {
            let member = &members[i];
            assert(trees[i as int] == member@);
            let place = member_path_text(path, member.key.as_str());
            let symbol = match scval::symbol_from_text(member.key.as_str()) {
                Some(symbol) => symbol,
                None => {
                    proof {
                        lemma_members_stop(trees, path@, (i + 1) as nat, trees.len());
                    }
                    return Err(
                        ParserError::InvalidSymbol {
                            location: place,
                            details: "Key name too long for symbol".to_owned(),
                        },
                    );
                },
            };
            let val = match Self::parse_value(&member.value, place.as_str()) {
                Ok(val) => val,
                Err(error) => {
                    proof {
                        lemma_members_stop(trees, path@, (i + 1) as nat, trees.len());
                    }
                    return Err(error);
                },
            };
            let entry = ScMapEntry { key: ScVal::Symbol(ScSymbol(symbol)), val };
            proof {
                parsed = parsed.push(entry@);
                assert(parsed.drop_last() =~= member_entries(trees, path@, i as nat)->Ok_0);
            }
            scval::insert_entry(&mut entries, entry);
            i += 1;
        }
        proof {
            scval::lemma_key_order_len(parsed);
        }
        match scval::bounded_items(entries) {
            Some(kept) => Ok(ScVal::MapVal(Some(ScMap(kept)))),
            None => Err(
                ParserError::InvalidType {
                    location: path.to_owned(),
                    expected: "smaller map".to_owned(),
                    found: "map size exceeds limit".to_owned(),
                },
            ),
        }
    }

    /// Decodes the address of an account or a contract.
    pub fn parse_address(address: &str) -> (r: Result<ScAddress, String>)
        ensures
            match r {
                Ok(decoded) => text_address(address@) == Some(decoded),
                Err(error) => {
                    &&& text_address(address@) is None
                    &&& error@ == if strkey_decoded(address@) is None {
                        "the strkey is invalid"@
                    } else {
                        "Unsupported address type"@
                    }
                },
            },
    {
        match decode_strkey(address) {
            Ok(key) => address_of_key(key),
            Err(error) => Err(error),
        }
    }
}

/// The first error among the items of an array stays the outcome however many follow.
proof fn lemma_items_stop(items: Seq<JsonTree>, path: Seq<char>, at: nat, count: nat)
    requires
        at <= count <= items.len(),
        item_values(items, path, at) is Err,
    ensures
        item_values(items, path, count) == item_values(items, path, at),
    decreases count,
{
    if at < count {
        lemma_items_stop(items, path, at, (count - 1) as nat);
    }
}

/// The first error among the members of an object stays the outcome however many follow.
proof fn lemma_members_stop(members: Seq<MemberTree>, path: Seq<char>, at: nat, count: nat)
    requires
        at <= count <= members.len(),
        member_entries(members, path, at) is Err,
    ensures
        member_entries(members, path, count) == member_entries(members, path, at),
    decreases count,
{
    if at < count {
        lemma_members_stop(members, path, at, (count - 1) as nat);
    }
}

// ── Laws ───────────────────────────────────────────────────────────────────

/// The outcome for some items of an array: either each item has its value, or the error is that of
/// an item.
proof fn lemma_item_values(items: Seq<JsonTree>, path: Seq<char>, count: nat)
    requires
        count <= items.len(),
    ensures
        match item_values(items, path, count) {
            Ok(values) => values.len() == count && forall|i: int|
                0 <= i < count ==> value_at(#[trigger] items[i], item_path(path, i as nat)) == Ok::<
                    ScTree,
                    ParserFault,
                >(values[i]),
            Err(fault) => exists|i: int|
                0 <= i < count && value_at(#[trigger] items[i], item_path(path, i as nat)) == Err::<
                    ScTree,
                    ParserFault,
                >(fault),
        },
    decreases count,
{
    if count > 0 {
        lemma_item_values(items, path, (count - 1) as nat);
        match item_values(items, path, count) {
            Ok(values) => {
                let before = item_values(items, path, (count - 1) as nat)->Ok_0;
                assert(forall|i: int| 0 <= i < count - 1 ==> values[i] == before[i]);
            },
            Err(fault) => {
                if item_values(items, path, (count - 1) as nat) is Ok {
                    assert(value_at(items[count - 1], item_path(path, (count - 1) as nat)) == Err::<
                        ScTree,
                        ParserFault,
                    >(fault));
                }
            },
        }
    }
}

/// The entry of a member of an object, where its value is known.
pub open spec fn member_entry(member: MemberTree, val: ScTree) -> EntryTree {
    EntryTree { key: ScTree::Symbol(encode_utf8(member.key)), val }
}

/// The outcome for some members of an object: either each member has its entry, or the error is
/// that of a member's key or of its value.
proof fn lemma_member_entries(members: Seq<MemberTree>, path: Seq<char>, count: nat)
    requires
        count <= members.len(),
    ensures
        match member_entries(members, path, count) {
            Ok(entries) => entries.len() == count && forall|i: int|
                #![trigger members[i]]
                0 <= i < count ==> {
                    &&& encode_utf8(members[i].key).len() <= SYMBOL_LIMIT
                    &&& value_at(members[i].value, member_path(path, members[i].key)) == Ok::<
                        ScTree,
                        ParserFault,
                    >(entries[i].val)
                    &&& entries[i] == member_entry(members[i], entries[i].val)
                },
            Err(fault) => exists|i: int|
                #![trigger members[i]]
                0 <= i < count && {
                    ||| encode_utf8(members[i].key).len() > SYMBOL_LIMIT && fault.place()
                        == member_path(path, members[i].key)
                    ||| value_at(members[i].value, member_path(path, members[i].key)) == Err::<
                        ScTree,
                        ParserFault,
                    >(fault)
                },
        },
    decreases count,
{
    if count > 0 {
        lemma_member_entries(members, path, (count - 1) as nat);
        let member = members[count - 1];
        match member_entries(members, path, count) {
            Ok(entries) => {
                let before = member_entries(members, path, (count - 1) as nat)->Ok_0;
                assert(forall|i: int| 0 <= i < count - 1 ==> entries[i] == before[i]);
            },
            Err(fault) => {
                if member_entries(members, path, (count - 1) as nat) is Ok {
                    assert(members[count - 1] == member);
                }
            },
        }
    }
}

/// An array becomes a list with as many values: at each place the value of the item there.
pub proof fn law_array_item_by_item(items: Seq<JsonTree>, path: Seq<char>)
    requires
        value_at(JsonTree::Array(items), path) is Ok,
    ensures
        value_at(JsonTree::Array(items), path)->Ok_0 matches ScTree::Vec(Some(values))
            && values.len() == items.len() && forall|i: int|
            0 <= i < items.len() ==> value_at(#[trigger] items[i], item_path(path, i as nat)) == Ok::<
                ScTree,
                ParserFault,
            >(values[i]),
{
    lemma_item_values(items, path, items.len());
}

/// An object becomes a map with as many entries, none before one in front of it: they are the
/// members' keys as symbols, each with the value of its member.
pub proof fn law_object_member_by_member(members: Seq<MemberTree>, path: Seq<char>)
    requires
        value_at(JsonTree::Object(members), path) is Ok,
    ensures
        value_at(JsonTree::Object(members), path)->Ok_0 matches ScTree::MapVal(Some(entries))
            && entries.len() == members.len() && scval::in_order(entries) && forall|i: int|
            #![trigger members[i]]
            0 <= i < members.len() ==> exists|j: int|
                0 <= j < entries.len() && value_at(
                    members[i].value,
                    member_path(path, members[i].key),
                ) == Ok::<ScTree, ParserFault>(entries[j].val) && #[trigger] entries[j]
                    == member_entry(members[i], entries[j].val),
{
    broadcast use vstd::seq_lib::group_to_multiset_ensures;

    lemma_member_entries(members, path, members.len());
    let parsed = member_entries(members, path, members.len())->Ok_0;
    let entries = scval::in_key_order(parsed);
    scval::law_key_order(parsed);
    scval::lemma_key_order_len(parsed);
    let value = value_at(JsonTree::Object(members), path)->Ok_0;
    assert(member_entries(members, path, members.len()) == Ok::<Seq<EntryTree>, ParserFault>(
        parsed,
    ));
    assert(value == ScTree::MapVal(Some(entries)));
    assert forall|i: int| #![trigger members[i]] 0 <= i < members.len() implies exists|j: int|
        0 <= j < entries.len() && value_at(members[i].value, member_path(path, members[i].key))
            == Ok::<ScTree, ParserFault>(entries[j].val) && #[trigger] entries[j] == member_entry(
            members[i],
            entries[j].val,
        ) by {
        assert(parsed[i] == member_entry(members[i], parsed[i].val));
        assert(parsed.contains(parsed[i]));
        assert(parsed.to_multiset().contains(parsed[i]));
        assert(entries.to_multiset().contains(parsed[i]));
        assert(entries.contains(parsed[i]));
        let j = choose|j: int| 0 <= j < entries.len() && entries[j] == parsed[i];
        assert(value_at(members[i].value, member_path(path, members[i].key)) == Ok::<
            ScTree,
            ParserFault,
        >(entries[j].val));
        assert(entries[j] == member_entry(members[i], entries[j].val));
    }
    assert(parsed.len() == members.len());
    assert(entries.len() == members.len());
    assert(scval::in_order(entries));
}

/// An array is accepted if and only if each of its items is, and there are not too many.
pub proof fn law_array_accepted(items: Seq<JsonTree>, path: Seq<char>)
    ensures
        value_at(JsonTree::Array(items), path) is Ok <==> items.len() <= LENGTH_LIMIT && forall|
            i: int,
        |
            0 <= i < items.len() ==> value_at(#[trigger] items[i], item_path(path, i as nat)) is Ok,
{
    lemma_item_values(items, path, items.len());
}

/// An object is accepted if and only if each of its keys fits into a symbol, each of its values is
/// accepted, and there are not too many.
pub proof fn law_object_accepted(members: Seq<MemberTree>, path: Seq<char>)
    ensures
        value_at(JsonTree::Object(members), path) is Ok <==> members.len() <= LENGTH_LIMIT
            && forall|i: int|
            #![trigger members[i]]
            0 <= i < members.len() ==> {
                &&& encode_utf8(members[i].key).len() <= SYMBOL_LIMIT
                &&& value_at(members[i].value, member_path(path, members[i].key)) is Ok
            },
{
    lemma_member_entries(members, path, members.len());
    if member_entries(members, path, members.len()) is Ok {
        scval::lemma_key_order_len(member_entries(members, path, members.len())->Ok_0);
    }
}

/// Of several faults in an array the first one is reported.
pub proof fn law_first_fault_of_an_array(items: Seq<JsonTree>, path: Seq<char>, at: int)
    requires
        0 <= at < items.len(),
        value_at(items[at], item_path(path, at as nat)) is Err,
        forall|i: int|
            0 <= i < at ==> value_at(#[trigger] items[i], item_path(path, i as nat)) is Ok,
    ensures
        value_at(JsonTree::Array(items), path) == value_at(items[at], item_path(path, at as nat)),
{
    lemma_item_values(items, path, at as nat);
    lemma_items_stop(items, path, (at + 1) as nat, items.len());
}

/// Of several faults in the values of an object the first one is reported.
pub proof fn law_first_fault_of_an_object(members: Seq<MemberTree>, path: Seq<char>, at: int)
    requires
        0 <= at < members.len(),
        encode_utf8(members[at].key).len() <= SYMBOL_LIMIT,
        value_at(members[at].value, member_path(path, members[at].key)) is Err,
        forall|i: int|
            #![trigger members[i]]
            0 <= i < at ==> {
                &&& encode_utf8(members[i].key).len() <= SYMBOL_LIMIT
                &&& value_at(members[i].value, member_path(path, members[i].key)) is Ok
            },
    ensures
        value_at(JsonTree::Object(members), path) == value_at(
            members[at].value,
            member_path(path, members[at].key),
        ),
{
    lemma_member_entries(members, path, at as nat);
    lemma_members_stop(members, path, (at + 1) as nat, members.len());
}

/// An error says where: its place is the path of the document, with the way from there to what was
/// refused behind it.
pub proof fn law_error_place_extends_path(json: JsonTree, path: Seq<char>)
    requires
        value_at(json, path) is Err,
    ensures
        path.is_prefix_of(value_at(json, path)->Err_0.place()),
    decreases json,
{
    let fault = value_at(json, path)->Err_0;
    match json {
        JsonTree::Array(items) => {
            lemma_item_values(items, path, items.len());
            if item_values(items, path, items.len()) is Err {
                let i = choose|i: int|
                    0 <= i < items.len() && value_at(#[trigger] items[i], item_path(path, i as nat))
                        == Err::<ScTree, ParserFault>(fault);
                law_error_place_extends_path(items[i], item_path(path, i as nat));
                lemma_prefix_steps(path, item_path(path, i as nat), fault.place());
            }
        },
        JsonTree::Object(members) => {
            lemma_member_entries(members, path, members.len());
            if member_entries(members, path, members.len()) is Err {
                let i = choose|i: int|
                    #![trigger members[i]]
                    0 <= i < members.len() && {
                        ||| encode_utf8(members[i].key).len() > SYMBOL_LIMIT && fault.place()
                            == member_path(path, members[i].key)
                        ||| value_at(members[i].value, member_path(path, members[i].key)) == Err::<
                            ScTree,
                            ParserFault,
                        >(fault)
                    };
                if fault.place() != member_path(path, members[i].key) {
                    assert(decreases_to!(json => members));
                    assert(decreases_to!(members => members[i]));
                    assert(decreases_to!(members[i] => members[i].value));
                    law_error_place_extends_path(
                        members[i].value,
                        member_path(path, members[i].key),
                    );
                }
                lemma_prefix_steps(path, member_path(path, members[i].key), fault.place());
            }
        },
        _ => {},
    }
}

/// A prefix of a prefix is a prefix.
proof fn lemma_prefix_steps(a: Seq<char>, b: Seq<char>, c: Seq<char>)
    requires
        a.is_prefix_of(b),
        b.is_prefix_of(c),
    ensures
        a.is_prefix_of(c),
{
    assert forall|i: int| 0 <= i < a.len() implies a[i] == c[i] by {
        assert(a[i] == b.subrange(0, a.len() as int)[i]);
        assert(b[i] == c.subrange(0, b.len() as int)[i]);
    }
    assert(a =~= c.subrange(0, a.len() as int));
}

/// What is made of each item of two lists with the same items is the same, each as often.
proof fn lemma_same_items_mapped<A, B>(a: Seq<A>, b: Seq<A>, f: spec_fn(A) -> B)
    requires
        a.to_multiset() == b.to_multiset(),
    ensures
        a.map_values(f).to_multiset() == b.map_values(f).to_multiset(),
    decreases a.len(),
{
    broadcast use vstd::seq_lib::group_to_multiset_ensures;

    assert(a.len() == a.to_multiset().len());
    assert(b.len() == b.to_multiset().len());
    if a.len() > 0 {
        let x = a.last();
        assert(a.contains(a[a.len() - 1]));
        assert(b.to_multiset().contains(x));
        assert(b.contains(x));
        let k = choose|k: int| 0 <= k < b.len() && b[k] == x;
        let rest = b.remove(k);
        assert(a =~= a.drop_last().push(x));
        assert(a.drop_last().to_multiset() =~= a.to_multiset().remove(x));
        assert(rest.to_multiset() =~= b.to_multiset().remove(x));
        lemma_same_items_mapped(a.drop_last(), rest, f);
        assert(a.map_values(f) =~= a.drop_last().map_values(f).push(f(x)));
        assert(b.map_values(f).remove(k) =~= rest.map_values(f));
        assert(b.map_values(f)[k] == f(x));
        assert(b.map_values(f).to_multiset() =~= rest.map_values(f).to_multiset().insert(f(x)));
    } else {
        assert(a.map_values(f) =~= b.map_values(f));
    }
}

/// The order of an object's members makes no difference: an object without two members of one key
/// becomes the same map in whatever order its members stand.
pub proof fn law_member_order_irrelevant(a: Seq<MemberTree>, b: Seq<MemberTree>, path: Seq<char>)
    requires
        a.to_multiset() == b.to_multiset(),
        forall|i: int, j: int|
            0 <= i < j < a.len() ==> (#[trigger] a[i]).key != (#[trigger] a[j]).key,
        value_at(JsonTree::Object(a), path) is Ok,
    ensures
        value_at(JsonTree::Object(b), path) == value_at(JsonTree::Object(a), path),
{
    broadcast use vstd::seq_lib::group_to_multiset_ensures;

    let entry = |m: MemberTree|
        member_entry(m, value_at(m.value, member_path(path, m.key))->Ok_0);
    lemma_member_entries(a, path, a.len());
    lemma_member_entries(b, path, b.len());
    let entries_a = member_entries(a, path, a.len())->Ok_0;
    assert(entries_a =~= a.map_values(entry));
    assert forall|i: int| 0 <= i < b.len() implies a.contains(#[trigger] b[i]) by {
        assert(b.contains(b[i]));
        assert(a.to_multiset().contains(b[i]));
    }
    assert(member_entries(b, path, b.len()) is Ok) by {
        if member_entries(b, path, b.len()) is Err {
            let fault = member_entries(b, path, b.len())->Err_0;
            let i = choose|i: int|
                #![trigger b[i]]
                0 <= i < b.len() && {
                    ||| encode_utf8(b[i].key).len() > SYMBOL_LIMIT && fault.place() == member_path(
                        path,
                        b[i].key,
                    )
                    ||| value_at(b[i].value, member_path(path, b[i].key)) == Err::<
                        ScTree,
                        ParserFault,
                    >(fault)
                };
            assert(a.contains(b[i]));
        }
    }
    let entries_b = member_entries(b, path, b.len())->Ok_0;
    assert(entries_b =~= b.map_values(entry));
    lemma_same_items_mapped(a, b, entry);
    assert(a.len() == a.to_multiset().len());
    assert(b.len() == b.to_multiset().len());
    assert(scval::keys_decide(entries_a)) by {
        assert forall|i: int, j: int|
            0 <= i < entries_a.len() && 0 <= j < entries_a.len() && (#[trigger] entries_a[i]).key
                == (#[trigger] entries_a[j]).key implies entries_a[i] == entries_a[j] by {
            encode_utf8_decode_utf8(a[i].key);
            encode_utf8_decode_utf8(a[j].key);
            assert(a[i].key == a[j].key);
        }
    }
    assert forall|i: int| 0 <= i < entries_a.len() implies scval::has_symbol_key(
        #[trigger] entries_a[i],
    ) by {
        assert(encode_utf8(a[i].key).len() <= SYMBOL_LIMIT);
    }
    scval::law_key_order_unique(entries_a, entries_b);
}

/// Whether two outcomes are the same value, or both refusals.
spec fn agree(a: Result<ScTree, ParserFault>, b: Result<ScTree, ParserFault>) -> bool {
    (a is Ok <==> b is Ok) && (a is Ok ==> a == b)
}

/// Arrays whose items agree at two paths agree.
proof fn lemma_arrays_agree(items: Seq<JsonTree>, p: Seq<char>, q: Seq<char>)
    requires
        forall|i: int|
            0 <= i < items.len() ==> agree(
                value_at(#[trigger] items[i], item_path(p, i as nat)),
                value_at(items[i], item_path(q, i as nat)),
            ),
    ensures
        agree(value_at(JsonTree::Array(items), p), value_at(JsonTree::Array(items), q)),
{
    let (a, b) = (item_values(items, p, items.len()), item_values(items, q, items.len()));
    lemma_item_values(items, p, items.len());
    lemma_item_values(items, q, items.len());
    if a is Ok && b is Ok {
        assert forall|i: int| 0 <= i < items.len() implies a->Ok_0[i] == b->Ok_0[i] by {
            assert(agree(
                value_at(items[i], item_path(p, i as nat)),
                value_at(items[i], item_path(q, i as nat)),
            ));
        }
        assert(a->Ok_0 =~= b->Ok_0);
    }
}

/// Objects whose members agree at two paths agree.
proof fn lemma_objects_agree(members: Seq<MemberTree>, p: Seq<char>, q: Seq<char>)
    requires
        forall|i: int|
            #![trigger members[i]]
            0 <= i < members.len() ==> agree(
                value_at(members[i].value, member_path(p, members[i].key)),
                value_at(members[i].value, member_path(q, members[i].key)),
            ),
    ensures
        agree(value_at(JsonTree::Object(members), p), value_at(JsonTree::Object(members), q)),
{
    let (a, b) = (
        member_entries(members, p, members.len()),
        member_entries(members, q, members.len()),
    );
    lemma_member_entries(members, p, members.len());
    lemma_member_entries(members, q, members.len());
    if a is Ok && b is Ok {
        assert forall|i: int| 0 <= i < members.len() implies a->Ok_0[i] == b->Ok_0[i] by {
            assert(agree(
                value_at(members[i].value, member_path(p, members[i].key)),
                value_at(members[i].value, member_path(q, members[i].key)),
            ));
        }
        assert(a->Ok_0 =~= b->Ok_0);
    }
}

/// A path serves to say where an error is, and nothing else: at any two paths a document is accepted
/// or refused alike, and where it is accepted it has the same value.
pub proof fn law_paths_serve_errors_only(json: JsonTree, p: Seq<char>, q: Seq<char>)
    ensures
        value_at(json, p) is Ok <==> value_at(json, q) is Ok,
        value_at(json, p) is Ok ==> value_at(json, p) == value_at(json, q),
    decreases json,
{
    match json {
        JsonTree::Array(items) => {
            assert forall|i: int| 0 <= i < items.len() implies agree(
                value_at(#[trigger] items[i], item_path(p, i as nat)),
                value_at(items[i], item_path(q, i as nat)),
            ) by {
                law_paths_serve_errors_only(
                    items[i],
                    item_path(p, i as nat),
                    item_path(q, i as nat),
                );
            }
            lemma_arrays_agree(items, p, q);
        },
        JsonTree::Object(members) => {
            assert forall|i: int| #![trigger members[i]] 0 <= i < members.len() implies agree(
                value_at(members[i].value, member_path(p, members[i].key)),
                value_at(members[i].value, member_path(q, members[i].key)),
            ) by {
                assert(decreases_to!(json => members));
                assert(decreases_to!(members => members[i]));
                assert(decreases_to!(members[i] => members[i].value));
                law_paths_serve_errors_only(
                    members[i].value,
                    member_path(p, members[i].key),
                    member_path(q, members[i].key),
                );
            }
            lemma_objects_agree(members, p, q);
        },
        _ => {},
    }
}

/// Null is void and a truth value is itself, wherever they stand.
pub proof fn law_null_and_truth_values(b: bool, path: Seq<char>)
    ensures
        value_at(JsonTree::Null, path) == Ok::<ScTree, ParserFault>(ScTree::Void),
        value_at(JsonTree::Bool(b), path) == Ok::<ScTree, ParserFault>(ScTree::Bool(b)),
{
}

/// A number keeps its value: one in the range of `i64` is signed, a greater one in the range of
/// `u64` is unsigned, and any other is refused where it stands.
pub proof fn law_numbers_keep_their_value(number: NumberTree, path: Seq<char>)
    ensures
        number.int is Some ==> value_at(JsonTree::Number(number), path) == Ok::<
            ScTree,
            ParserFault,
        >(ScTree::I64(number.int->0)),
        number.int is None && number.uint is Some ==> value_at(JsonTree::Number(number), path)
            == Ok::<ScTree, ParserFault>(ScTree::U64(number.uint->0)),
        number.int is None && number.uint is None ==> value_at(JsonTree::Number(number), path)
            == Err::<ScTree, ParserFault>(
            ParserFault::InvalidType {
                location: path,
                expected: "integer"@,
                found: "number "@ + number.text,
            },
        ),
{
}

/// A name behind a colon is a symbol of the same name if it has at most 32 bytes, and is refused if
/// it has more.
pub proof fn law_names_behind_a_colon_are_symbols(name: Seq<char>, path: Seq<char>)
    ensures
        encode_utf8(name).len() <= 32 ==> value_at(JsonTree::String(seq![':'] + name), path) == Ok::<
            ScTree,
            ParserFault,
        >(ScTree::Symbol(encode_utf8(name))),
        encode_utf8(name).len() > 32 ==> value_at(JsonTree::String(seq![':'] + name), path) == Err::<
            ScTree,
            ParserFault,
        >(
            ParserFault::InvalidSymbol {
                location: path,
                details: "Symbol must be 1-32 characters"@,
            },
        ),
{
    let text = seq![':'] + name;
    assert(text.skip(1) =~= name);
    assert(!address_shaped(text));
}

/// Whether a byte writes down a hex digit.
pub open spec fn writes_digit(byte: u8, digit: u8) -> bool {
    ||| 0 <= digit < 10 && byte == 48 + digit
    ||| 10 <= digit < 16 && byte == 55 + digit
    ||| 10 <= digit < 16 && byte == 87 + digit
}

/// What follows `0x` is read by twos as bytes, the higher digit first. It is refused if it is of odd
/// length or holds anything but hex digits.
pub proof fn law_hex_digits_write_bytes(digits: Seq<char>, path: Seq<char>)
    ensures
        match value_at(JsonTree::String(seq!['0', 'x'] + digits), path) {
            Ok(value) => value is Bytes && {
                let (bytes, read) = (value->Bytes_0, encode_utf8(digits));
                &&& read.len() == 2 * bytes.len()
                &&& bytes.len() <= 4_294_967_295
                &&& forall|i: int|
                    0 <= i < bytes.len() ==> writes_digit(read[2 * i], #[trigger] bytes[i] / 16)
                        && writes_digit(read[2 * i + 1], bytes[i] % 16)
            },
            Err(fault) => fault is InvalidHex && fault.place() == path && {
                ||| encode_utf8(digits).len() % 2 == 1
                ||| encode_utf8(digits).len() > 2 * 4_294_967_295
                ||| exists|i: int|
                    #![trigger encode_utf8(digits)[i]]
                    0 <= i < encode_utf8(digits).len() && forall|digit: u8|
                        !writes_digit(encode_utf8(digits)[i], digit)
            },
        },
{
    let text = seq!['0', 'x'] + digits;
    let read = encode_utf8(digits);
    assert(text.skip(2) =~= digits);
    assert(!address_shaped(text));
    let value = value_at(JsonTree::String(text), path);
    if value is Ok {
        let bytes = value->Ok_0->Bytes_0;
        assert forall|i: int| 0 <= i < bytes.len() implies writes_digit(
            read[2 * i],
            #[trigger] bytes[i] / 16,
        ) && writes_digit(read[2 * i + 1], bytes[i] % 16) by {
            assert(is_hex_digit(read[2 * i]) && is_hex_digit(read[2 * i + 1]));
        }
    } else if !is_hex(read) && read.len() % 2 == 0 {
        let i = choose|i: int| 0 <= i < read.len() && !is_hex_digit(#[trigger] read[i]);
        assert forall|digit: u8| !writes_digit(encode_utf8(digits)[i], digit) by {
            assert(!is_hex_digit(read[i]));
        }
    }
}

/// A text of 56 bytes that starts with `G` or `C` and is a key is the address of that key: an account
/// has the key's bytes, and a contract the key's hash.
pub proof fn law_keys_are_addresses(text: Seq<char>, path: Seq<char>)
    requires
        text.len() > 0,
        text[0] == 'G' || text[0] == 'C',
        encode_utf8(text).len() == 56,
    ensures
        strkey_decoded(text) matches Some(Strkey::PublicKeyEd25519(key)) ==> value_at(
            JsonTree::String(text),
            path,
        ) == Ok::<ScTree, ParserFault>(ScTree::Address(ScAddress::Account(key))),
        strkey_decoded(text) matches Some(Strkey::Contract(hash)) ==> value_at(
            JsonTree::String(text),
            path,
        ) == Ok::<ScTree, ParserFault>(ScTree::Address(ScAddress::Contract(hash))),
        strkey_decoded(text) is None || strkey_decoded(text)->0 is Other ==> value_at(
            JsonTree::String(text),
            path,
        ) == Ok::<ScTree, ParserFault>(ScTree::String(encode_utf8(text))),
{
}

/// A text that starts neither with a colon nor with `0x`, and neither with `G` nor with `C` or is not
/// of 56 bytes, is a string of the same characters.
pub proof fn law_other_texts_are_strings(text: Seq<char>, path: Seq<char>)
    requires
        text.len() > 0 ==> text[0] != ':',
        text.len() > 1 ==> text[0] != '0' || text[1] != 'x',
        text.len() > 0 && (text[0] == 'G' || text[0] == 'C') ==> encode_utf8(text).len() != 56,
    ensures
        encode_utf8(text).len() <= 4_294_967_295 ==> value_at(JsonTree::String(text), path) == Ok::<
            ScTree,
            ParserFault,
        >(ScTree::String(encode_utf8(text))),
        encode_utf8(text).len() > 4_294_967_295 ==> value_at(JsonTree::String(text), path) == Err::<
            ScTree,
            ParserFault,
        >(
            ParserFault::InvalidType {
                location: path,
                expected: "shorter string"@,
                found: "string length exceeds limit"@,
            },
        ),
{
}

/// A list holds at each place what the item there is worth on its own, at whatever path.
pub proof fn law_list_of_values(items: Seq<JsonTree>, path: Seq<char>, at: int, own: Seq<char>)
    requires
        value_at(JsonTree::Array(items), path) is Ok,
        0 <= at < items.len(),
    ensures
        value_at(JsonTree::Array(items), path)->Ok_0 matches ScTree::Vec(Some(values))
            && values.len() == items.len() && value_at(items[at], own) == Ok::<ScTree, ParserFault>(
            values[at],
        ),
{
    law_array_item_by_item(items, path);
    law_paths_serve_errors_only(items[at], item_path(path, at as nat), own);
}

/// A map holds for each member the member's key as a symbol, with what its value is worth on its own,
/// at whatever path.
pub proof fn law_map_of_values(members: Seq<MemberTree>, path: Seq<char>, at: int, own: Seq<char>)
    requires
        value_at(JsonTree::Object(members), path) is Ok,
        0 <= at < members.len(),
    ensures
        value_at(members[at].value, own) is Ok,
        value_at(JsonTree::Object(members), path)->Ok_0 matches ScTree::MapVal(Some(entries))
            && entries.len() == members.len() && entries.contains(
            EntryTree {
                key: ScTree::Symbol(encode_utf8(members[at].key)),
                val: value_at(members[at].value, own)->Ok_0,
            },
        ),
{
    law_object_member_by_member(members, path);
    law_paths_serve_errors_only(members[at].value, member_path(path, members[at].key), own);
    let member = members[at];
    let entries = value_at(JsonTree::Object(members), path)->Ok_0->MapVal_0->0;
    let j = choose|j: int|
        0 <= j < entries.len() && value_at(members[at].value, member_path(path, members[at].key))
            == Ok::<ScTree, ParserFault>(entries[j].val) && #[trigger] entries[j] == member_entry(
            members[at],
            entries[j].val,
        );
    assert(entries.contains(entries[j]));
}

/// An array is refused for its length alone only if it has more than 4294967295 items, and an object
/// only if it has more members; either way at its own path.
pub proof fn law_only_the_longest_are_too_long(
    items: Seq<JsonTree>,
    members: Seq<MemberTree>,
    path: Seq<char>,
)
    requires
        forall|i: int|
            0 <= i < items.len() ==> value_at(#[trigger] items[i], item_path(path, i as nat)) is Ok,
        forall|i: int|
            #![trigger members[i]]
            0 <= i < members.len() ==> encode_utf8(members[i].key).len() <= 32 && value_at(
                members[i].value,
                member_path(path, members[i].key),
            ) is Ok,
    ensures
        value_at(JsonTree::Array(items), path) is Ok <==> items.len() <= 4_294_967_295,
        value_at(JsonTree::Array(items), path) is Err ==> value_at(JsonTree::Array(items), path)
            == Err::<ScTree, ParserFault>(
            ParserFault::InvalidType {
                location: path,
                expected: "shorter vector"@,
                found: "vector size exceeds limit"@,
            },
        ),
        value_at(JsonTree::Object(members), path) is Ok <==> members.len() <= 4_294_967_295,
        value_at(JsonTree::Object(members), path) is Err ==> value_at(
            JsonTree::Object(members),
            path,
        ) == Err::<ScTree, ParserFault>(
            ParserFault::InvalidType {
                location: path,
                expected: "smaller map"@,
                found: "map size exceeds limit"@,
            },
        ),
{
    law_array_accepted(items, path);
    law_object_accepted(members, path);
    lemma_item_values(items, path, items.len());
    lemma_member_entries(members, path, members.len());
}

/// A key of more than 32 bytes is refused where it stands, whatever its value, if no member before
/// it is refused.
pub proof fn law_long_keys_are_refused(members: Seq<MemberTree>, path: Seq<char>, at: int)
    requires
        0 <= at < members.len(),
        encode_utf8(members[at].key).len() > 32,
        forall|i: int|
            #![trigger members[i]]
            0 <= i < at ==> encode_utf8(members[i].key).len() <= 32 && value_at(
                members[i].value,
                member_path(path, members[i].key),
            ) is Ok,
    ensures
        value_at(JsonTree::Object(members), path) == Err::<ScTree, ParserFault>(
            ParserFault::InvalidSymbol {
                location: path + "."@ + members[at].key,
                details: "Key name too long for symbol"@,
            },
        ),
{
    lemma_member_entries(members, path, at as nat);
    lemma_members_stop(members, path, (at + 1) as nat, members.len());
}

/// The path of an item is that of its array with its place in brackets behind it, and the path of a
/// member that of its object with a dot and its key.
pub proof fn law_paths_name_places_and_keys(path: Seq<char>, index: u64, key: Seq<char>)
    ensures
        item_path(path, index as nat) == path + "["@ + text::decimal(index as nat) + "]"@,
        member_path(path, key) == path + "."@ + key,
{
}

/// The first item that would be refused on its own, at whatever path, is what its array is refused
/// for: the error's place is the path of the array, the place of the item in brackets, and the way from
/// there on.
pub proof fn law_refused_items_are_located(
    items: Seq<JsonTree>,
    path: Seq<char>,
    own: Seq<char>,
    at: int,
)
    requires
        0 <= at < items.len(),
        value_at(items[at], own) is Err,
        forall|i: int| 0 <= i < at ==> value_at(#[trigger] items[i], own) is Ok,
    ensures
        value_at(JsonTree::Array(items), path) is Err,
        (path + "["@ + text::decimal(at as nat) + "]"@).is_prefix_of(
            value_at(JsonTree::Array(items), path)->Err_0.place(),
        ),
{
    law_paths_serve_errors_only(items[at], own, item_path(path, at as nat));
    assert forall|i: int| 0 <= i < at implies value_at(
        #[trigger] items[i],
        item_path(path, i as nat),
    ) is Ok by {
        law_paths_serve_errors_only(items[i], own, item_path(path, i as nat));
    }
    law_first_fault_of_an_array(items, path, at);
    law_error_place_extends_path(items[at], item_path(path, at as nat));
}

/// The first member whose value would be refused on its own, at whatever path, is what its object is
/// refused for: the error's place is the path of the object, a dot, the key, and the way from there on.
pub proof fn law_refused_members_are_located(
    members: Seq<MemberTree>,
    path: Seq<char>,
    own: Seq<char>,
    at: int,
)
    requires
        0 <= at < members.len(),
        encode_utf8(members[at].key).len() <= 32,
        value_at(members[at].value, own) is Err,
        forall|i: int|
            #![trigger members[i]]
            0 <= i < at ==> encode_utf8(members[i].key).len() <= 32 && value_at(
                members[i].value,
                own,
            ) is Ok,
    ensures
        value_at(JsonTree::Object(members), path) is Err,
        (path + "."@ + members[at].key).is_prefix_of(
            value_at(JsonTree::Object(members), path)->Err_0.place(),
        ),
{
    law_paths_serve_errors_only(members[at].value, own, member_path(path, members[at].key));
    assert forall|i: int| #![trigger members[i]] 0 <= i < at implies {
        &&& encode_utf8(members[i].key).len() <= SYMBOL_LIMIT
        &&& value_at(members[i].value, member_path(path, members[i].key)) is Ok
    } by {
        law_paths_serve_errors_only(members[i].value, own, member_path(path, members[i].key));
    }
    law_first_fault_of_an_object(members, path, at);
    law_error_place_extends_path(members[at].value, member_path(path, members[at].key));
}

/// A text that is JSON has the value of its document, wherever one would set it; one that is not is
/// refused at the root, with what the reader of JSON says.
pub proof fn law_texts_mean_their_documents(json: JsonTree, error: Seq<char>, path: Seq<char>)
    ensures
        value_at(json, path) is Ok ==> text_document_value(Ok(json)) == value_at(json, path),
        value_at(json, path) is Err ==> text_document_value(Ok(json)) is Err && "$"@.is_prefix_of(
            text_document_value(Ok(json))->Err_0.place(),
        ),
        text_document_value(Err(error)) == Err::<ScTree, ParserFault>(
            ParserFault::InvalidType { location: "$"@, expected: "valid JSON"@, found: error },
        ),
{
    law_paths_serve_errors_only(json, path, "$"@);
    if value_at(json, path) is Err {
        law_error_place_extends_path(json, "$"@);
    }
}

/// A message names what is wrong, then the place, then the details.
pub proof fn law_messages_name_place_and_details(place: Seq<char>, a: Seq<char>, b: Seq<char>)
    ensures
        (ParserFault::InvalidType { location: place, expected: a, found: b }).message()
            == "Invalid JSON type at "@ + place + ": expected "@ + a + ", found "@ + b,
        (ParserFault::InvalidSymbol { location: place, details: a }).message()
            == "Invalid symbol at "@ + place + ": "@ + a,
        (ParserFault::InvalidHex { location: place, details: a }).message()
            == "Invalid hex bytes at "@ + place + ": "@ + a,
{
}

/// What is parsed is the value itself, and an error stands for what its fields hold.
pub proof fn law_outcomes_stand_for_themselves(value: ScVal, error: ParserError)
    ensures
        parse_outcome(Ok(value)) == Ok::<ScTree, ParserFault>(value@),
        parse_outcome(Err(error)) == Err::<ScTree, ParserFault>(error@),
        error matches ParserError::InvalidType { location, expected, found } ==> error@ == (
        ParserFault::InvalidType { location: location@, expected: expected@, found: found@ }),
        error matches ParserError::InvalidSymbol { location, details } ==> error@ == (
        ParserFault::InvalidSymbol { location: location@, details: details@ }),
        error matches ParserError::InvalidHex { location, details } ==> error@ == (
        ParserFault::InvalidHex { location: location@, details: details@ }),
{
}

/// A text that has the shape of an address is the address it decodes to, if it does; one that does not
/// decode, or has another shape, has the same value whatever it is taken to decode to.
pub proof fn law_only_shaped_texts_are_addresses(
    text: Seq<char>,
    path: Seq<char>,
    address: ScAddress,
)
    ensures
        ({
            let shaped = text.len() > 0 && (text[0] == 'G' || text[0] == 'C') && encode_utf8(
                text,
            ).len() == 56;
            &&& shaped ==> text_value(text, path, Some(address)) == Ok::<ScTree, ParserFault>(
                ScTree::Address(address),
            )
            &&& shaped ==> text_value(text, path, None) == Ok::<ScTree, ParserFault>(
                ScTree::String(encode_utf8(text)),
            )
            &&& !shaped ==> text_value(text, path, Some(address)) == text_value(text, path, None)
                && text_value(text, path, None) == value_at(JsonTree::String(text), path)
        }),
{
}

/// Only the keys of accounts and of contracts are addresses: an account has the key's bytes, and a
/// contract the key's hash.
pub proof fn law_keys_of_addresses(bytes: [u8; 32], text: Seq<char>)
    ensures
        key_address(Strkey::PublicKeyEd25519(bytes)) == Some(ScAddress::Account(bytes)),
        key_address(Strkey::Contract(bytes)) == Some(ScAddress::Contract(bytes)),
        key_address(Strkey::Other) is None,
        strkey_decoded(text) is None ==> text_address(text) is None,
        strkey_decoded(text) matches Some(key) ==> text_address(text) == key_address(key),
{
}

} // verus!
