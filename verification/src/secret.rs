//! The GitHub token in the system keyring: how its item is found, and what is
//! made of what the keyring gives back. The token itself is in no file and no
//! message.

use vstd::prelude::*;
use vstd::string::*;
use vstd::utf8::*;

verus! {

/// The app's id: its desktop entry, its icon and its keyring item.
pub const APP_ID: &'static str = "dev.miguelrincon.Pitwall";

/// The human-readable label of the keyring item.
pub const LABEL: &'static str = "Pitwall GitHub token";

/// The attributes that identify our item in the keyring, keyed by the app id
/// so we own exactly one and can't collide with anything else on the machine.
pub open spec fn our_attributes() -> Seq<(Seq<char>, Seq<char>)> {
    seq![("application"@, APP_ID@), ("type"@, "github-token"@)]
}

/// What a list of attributes holds.
pub open spec fn attribute_views(pairs: Seq<(&'static str, &'static str)>) -> Seq<
    (Seq<char>, Seq<char>),
> {
    pairs.map_values(|p: (&'static str, &'static str)| (p.0@, p.1@))
}

/// The attributes that identify our item in the keyring.
pub fn attributes() -> (r: Vec<(&'static str, &'static str)>)
    ensures
        attribute_views(r@) == our_attributes(),
{
    let mut pairs: Vec<(&'static str, &'static str)> = Vec::new();
    pairs.push(("application", APP_ID));
    pairs.push(("type", "github-token"));
    assert(attribute_views(pairs@) =~= our_attributes());
    pairs
}

/// What saving the token takes: the item to create, in place of the one there
/// may be.
pub struct StoreRequest {
    pub label: &'static str,
    pub attributes: Vec<(&'static str, &'static str)>,
    pub secret: String,
    pub replace: bool,
}

/// The request to save a token.
pub fn store_request(token: &str) -> (r: StoreRequest)
    ensures
        r.label@ == LABEL@,
        attribute_views(r.attributes@) == our_attributes(),
        r.secret@ == token@,
        r.replace,
{
    StoreRequest { label: LABEL, attributes: attributes(), secret: token.to_owned(), replace: true }
}

/// How `std::string::String::from_utf8` words its complaint about bytes that
/// are no UTF-8.
pub uninterp spec fn utf8_complaint(bytes: Seq<u8>) -> Seq<char>;

/// `std::string::String::from_utf8`: the text that the bytes encode, or, where
/// they are no UTF-8, the complaint in words.
#[verifier::external_body]
fn utf8_text(bytes: Vec<u8>) -> (r: Result<String, String>)
    ensures
        match r {
            Ok(decoded) => valid_utf8(bytes@) && encode_utf8(decoded@) == bytes@,
            Err(reason) => !valid_utf8(bytes@) && reason@ == utf8_complaint(bytes@),
        },
{
    String::from_utf8(bytes).map_err(|err| err.to_string())
}

/// What the keyring's answer gives: no token, the token, or a complaint.
pub open spec fn loaded(item: Option<Seq<u8>>) -> Result<Option<Seq<char>>, Seq<char>> {
    match item {
        None => Ok(None),
        Some(bytes) => if valid_utf8(bytes) {
            Ok(Some(decode_utf8(bytes)))
        } else {
            Err("stored token is not valid UTF-8: "@ + utf8_complaint(bytes))
        },
    }
}

/// The token, if one was stored: the keyring's first item, decoded. Finding
/// none is no error but the first launch, which leads to the sign-in. Bytes
/// that are no UTF-8 are no token we wrote.
pub fn load(item: Option<Vec<u8>>) -> (r: Result<Option<String>, String>)
    ensures
        match (r, loaded(
            match item {
                Some(bytes) => Some(bytes@),
                None => None,
            },
        )) {
            (Ok(None), Ok(None)) => true,
            (Ok(Some(token)), Ok(Some(text))) => token@ == text,
            (Err(reason), Err(text)) => reason@ == text,
            _ => false,
        },
{
    broadcast use encode_utf8_decode_utf8;

    match item {
        None => Ok(None),
        Some(bytes) => match utf8_text(bytes) {
            Ok(token) => Ok(Some(token)),
            Err(reason) => {
                let mut told: String = "stored token is not valid UTF-8: ".to_owned();
                told.append(reason.as_str());
                Err(told)
            },
        },
    }
}

/// An item of a keyring.
pub ghost struct KeyringItem {
    pub attributes: Map<Seq<char>, Seq<char>>,
    pub secret: Seq<u8>,
}

/// Whether an item is found under our attributes.
pub open spec fn ours(item: KeyringItem) -> bool {
    forall|i: int|
        0 <= i < our_attributes().len() ==> item.attributes.contains_pair(
            (#[trigger] our_attributes()[i]).0,
            our_attributes()[i].1,
        )
}

/// The item that saving a token asks for: our attributes, and the token's
/// bytes.
pub open spec fn token_item(token: Seq<char>) -> KeyringItem {
    KeyringItem {
        attributes: Map::empty().insert(our_attributes()[0].0, our_attributes()[0].1).insert(
            our_attributes()[1].0,
            our_attributes()[1].1,
        ),
        secret: encode_utf8(token),
    }
}

/// A keyring after a token was saved: told to replace, it drops what it finds
/// under the attributes, and takes the new item in.
pub open spec fn after_store(keyring: Seq<KeyringItem>, token: Seq<char>) -> Seq<KeyringItem> {
    after_clear(keyring).push(token_item(token))
}

/// A keyring after the token was cleared: what it finds under the attributes
/// is gone.
pub open spec fn after_clear(keyring: Seq<KeyringItem>) -> Seq<KeyringItem> {
    keyring.filter(|item: KeyringItem| !ours(item))
}

/// The secret of the first item that a keyring finds under our attributes.
pub open spec fn found(keyring: Seq<KeyringItem>) -> Option<Seq<u8>> {
    let items = keyring.filter(|item: KeyringItem| ours(item));
    if items.len() == 0 {
        None
    } else {
        Some(items[0].secret)
    }
}

/// A cleared keyring finds nothing under our attributes.
proof fn lemma_cleared(keyring: Seq<KeyringItem>)
    ensures
        after_clear(keyring).filter(|item: KeyringItem| ours(item)) == Seq::<KeyringItem>::empty(),
    decreases keyring.len(),
{
    reveal(Seq::filter);
    let mine = |item: KeyringItem| ours(item);
    let other = |item: KeyringItem| !ours(item);
    if keyring.len() > 0 {
        let init = keyring.drop_last();
        lemma_cleared(init);
        if !ours(keyring.last()) {
            init.filter(other).lemma_filter_push(keyring.last(), mine);
        }
    }
}

/// The item we save is found under our attributes.
proof fn lemma_token_is_ours(token: Seq<char>)
    ensures
        ours(token_item(token)),
{
    reveal_strlit("application");
    reveal_strlit("type");
    assert(our_attributes()[0].0.len() != our_attributes()[1].0.len());
    assert forall|i: int| 0 <= i < our_attributes().len() implies token_item(
        token,
    ).attributes.contains_pair((#[trigger] our_attributes()[i]).0, our_attributes()[i].1) by {
        if i != 0 {
            assert(i == 1);
        }
    }
}

/// The last token saved is the one that is loaded, and the keyring holds one
/// item of ours, whatever it held before: saving replaces.
pub proof fn law_last_token_is_loaded(keyring: Seq<KeyringItem>, token: Seq<char>)
    ensures
        loaded(found(after_store(keyring, token))) == Ok::<_, Seq<char>>(Some(token)),
        after_store(keyring, token).filter(|item: KeyringItem| ours(item)) == seq![
            token_item(token),
        ],
{
    broadcast use {encode_utf8_valid_utf8, encode_utf8_decode_utf8};

    let mine = |item: KeyringItem| ours(item);
    lemma_cleared(keyring);
    lemma_token_is_ours(token);
    after_clear(keyring).lemma_filter_push(token_item(token), mine);
    assert(after_store(keyring, token).filter(mine) =~= seq![token_item(token)]);
}

/// Saving a second token leaves the second: the first is gone.
pub proof fn law_second_token_replaces_the_first(
    keyring: Seq<KeyringItem>,
    first: Seq<char>,
    second: Seq<char>,
)
    ensures
        loaded(found(after_store(after_store(keyring, first), second))) == Ok::<_, Seq<char>>(
            Some(second),
        ),
        after_store(after_store(keyring, first), second) == after_store(keyring, second),
{
    law_last_token_is_loaded(after_store(keyring, first), second);
    let other = |item: KeyringItem| !ours(item);
    lemma_token_is_ours(first);
    after_clear(keyring).lemma_filter_push(token_item(first), other);
    lemma_cleared_again(keyring);
}

/// Clearing what is cleared changes nothing.
proof fn lemma_cleared_again(keyring: Seq<KeyringItem>)
    ensures
        after_clear(after_clear(keyring)) == after_clear(keyring),
    decreases keyring.len(),
{
    reveal(Seq::filter);
    let other = |item: KeyringItem| !ours(item);
    if keyring.len() > 0 {
        let init = keyring.drop_last();
        lemma_cleared_again(init);
        if !ours(keyring.last()) {
            init.filter(other).lemma_filter_push(keyring.last(), other);
        }
    }
}

/// With the token cleared, or never saved, loading finds none, which is no
/// error.
pub proof fn law_cleared_token_is_gone(keyring: Seq<KeyringItem>)
    ensures
        loaded(found(after_clear(keyring))) == Ok::<Option<Seq<char>>, Seq<char>>(None),
        loaded(found(Seq::empty())) == Ok::<Option<Seq<char>>, Seq<char>>(None),
{
    lemma_cleared(keyring);
    reveal(Seq::filter);
}

/// Our item is found by the app's id and its kind, and by nothing else.
pub proof fn law_item_is_found_by_the_app()
    ensures
        our_attributes().len() == 2,
        our_attributes()[0] == ("application"@, "dev.miguelrincon.Pitwall"@),
        our_attributes()[1] == ("type"@, "github-token"@),
        LABEL@ == "Pitwall GitHub token"@,
{
}

/// Bytes that are no text are told, never taken for a token or for none.
pub proof fn law_broken_token_is_told(bytes: Seq<u8>)
    requires
        !valid_utf8(bytes),
    ensures
        loaded(Some(bytes)) == Err::<Option<Seq<char>>, Seq<char>>(
            "stored token is not valid UTF-8: "@ + utf8_complaint(bytes),
        ),
{
}

} // verus!
