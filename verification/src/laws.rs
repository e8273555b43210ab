//! What the operations guarantee against a faithfully behaving store.
//!
//! The store itself lives on a remote server. Its expected behaviour is
//! stated here as predicates over the transport outcome of a single
//! exchange (`faithful_get_exchange`, ...), and the laws prove what each
//! operation then returns — for every store contents and every key, not
//! for chosen examples. The contents of a store are modelled as a map
//! from key strings to value strings for get, set and delete, and as
//! the ordered sequence of its keys for list.

use vstd::prelude::*;

verus! {

use crate::client::ErrV;
use crate::client::ErrorKind;
use crate::client::ExchangeV;
use crate::client::ListExchangeV;
use crate::client::delete_missing_message;
use crate::client::get_missing_message;
use crate::client::spec_delete_result;
use crate::client::spec_get_result;
use crate::client::spec_get_request;
use crate::client::spec_list_request;
use crate::client::spec_list_result;
use crate::client::spec_set_request;
use crate::encoding::is_unreserved_char;
use crate::encoding::lemma_percent_encoded_chars;
use crate::encoding::lemma_percent_encoded_injective;
use crate::encoding::percent_encoded;
use crate::lines::join_lines;
use crate::lines::lemma_split_join;
use crate::lines::wire_line;

/// True when `ex` is what a faithful store holding `store` answers to
/// the get request for `key`: a response, successful exactly when the
/// key is present, whose body is then the stored value.
pub open spec fn faithful_get_exchange(
    store: Map<Seq<char>, Seq<char>>,
    key: Seq<char>,
    ex: ExchangeV,
) -> bool {
    &&& ex matches ExchangeV::Completed { success, body }
    &&& success == store.contains_key(key)
    &&& store.contains_key(key) ==> body == store[key]
}

/// True when `ex` is what a faithful store holding `store` answers to
/// the delete request for `key`: a response, successful exactly when
/// the key was present; its body says nothing.
pub open spec fn faithful_delete_exchange(
    store: Map<Seq<char>, Seq<char>>,
    key: Seq<char>,
    ex: ExchangeV,
) -> bool {
    &&& ex matches ExchangeV::Completed { success, .. }
    &&& success == store.contains_key(key)
}

/// Setting then getting returns the value unchanged: once a set of
/// `key` to `value` has reached the store, a faithful answer to a get
/// of `key` reads back exactly `value`.
pub proof fn lemma_set_then_get(
    store: Map<Seq<char>, Seq<char>>,
    key: Seq<char>,
    value: Seq<char>,
    ex: ExchangeV,
)
    requires
        faithful_get_exchange(store.insert(key, value), key, ex),
    ensures
        spec_get_result(ex) == Ok::<Seq<char>, ErrV>(value),
{
    assert(store.insert(key, value).contains_key(key));
    assert(store.insert(key, value)[key] == value);
}

/// A get of a key the store does not hold reports that no item was
/// found.
pub proof fn lemma_get_absent(store: Map<Seq<char>, Seq<char>>, key: Seq<char>, ex: ExchangeV)
    requires
        !store.contains_key(key),
        faithful_get_exchange(store, key, ex),
    ensures
        spec_get_result(ex) == Err::<Seq<char>, ErrV>(
            ErrV { kind: ErrorKind::NoItemFoundError, message: get_missing_message() },
        ),
{
}

/// A delete of a key the store does not hold reports that no item was
/// found.
pub proof fn lemma_delete_absent(store: Map<Seq<char>, Seq<char>>, key: Seq<char>, ex: ExchangeV)
    requires
        !store.contains_key(key),
        faithful_delete_exchange(store, key, ex),
    ensures
        spec_delete_result(ex) == Err::<(), ErrV>(
            ErrV { kind: ErrorKind::NoItemFoundError, message: delete_missing_message() },
        ),
{
}

/// A delete of a present key succeeds, and a get of that key
/// afterwards reports that no item was found.
pub proof fn lemma_delete_then_get(
    store: Map<Seq<char>, Seq<char>>,
    key: Seq<char>,
    ex_delete: ExchangeV,
    ex_get: ExchangeV,
)
    requires
        store.contains_key(key),
        faithful_delete_exchange(store, key, ex_delete),
        faithful_get_exchange(store.remove(key), key, ex_get),
    ensures
        spec_delete_result(ex_delete) == Ok::<(), ErrV>(()),
        spec_get_result(ex_get) == Err::<Seq<char>, ErrV>(
            ErrV { kind: ErrorKind::NoItemFoundError, message: get_missing_message() },
        ),
{
    assert(!store.remove(key).contains_key(key));
}

/// The store's keys that carry `prefix`, in the store's own order.
pub open spec fn keys_with_prefix(keys: Seq<Seq<char>>, prefix: Seq<char>) -> Seq<Seq<char>> {
    keys.filter(|k: Seq<char>| prefix.is_prefix_of(k))
}

/// True when `ex` is what a faithful store whose keys are `keys`, in
/// that order, answers to the list request with `prefix`: the matching
/// keys joined as lines.
pub open spec fn faithful_list_exchange(
    keys: Seq<Seq<char>>,
    prefix: Seq<char>,
    ex: ListExchangeV,
) -> bool {
    ex matches ListExchangeV::Body { text } && text == join_lines(keys_with_prefix(keys, prefix))
}

/// True of key sequences the newline-delimited listing protocol can
/// carry: distinct keys, none empty, none holding a newline, none
/// ending in a carriage return.
pub open spec fn listable_keys(keys: Seq<Seq<char>>) -> bool {
    &&& keys.no_duplicates()
    &&& forall|i: int| 0 <= i < keys.len() ==> wire_line(#[trigger] keys[i])
}

/// The empty prefix selects every key.
pub proof fn lemma_empty_prefix_keeps_all(keys: Seq<Seq<char>>)
    ensures
        keys_with_prefix(keys, Seq::empty()) == keys,
    decreases keys.len(),
{
    reveal(Seq::filter);
    let pred = |k: Seq<char>| Seq::<char>::empty().is_prefix_of(k);
    if keys.len() == 0 {
        assert(keys.filter(pred) =~~= keys);
    } else {
        lemma_empty_prefix_keeps_all(keys.drop_last());
        assert(Seq::<char>::empty() =~= keys.last().subrange(0, 0));
        assert(pred(keys.last()));
        assert(keys.filter(pred) =~~= keys.drop_last().filter(pred).push(keys.last()));
        assert(keys.drop_last().push(keys.last()) =~~= keys);
    }
}

/// Every element a filter keeps was an element of the sequence.
proof fn lemma_filter_members<A>(s: Seq<A>, pred: spec_fn(A) -> bool)
    ensures
        forall|i: int| 0 <= i < s.filter(pred).len() ==> s.contains(#[trigger] s.filter(pred)[i]),
    decreases s.len(),
{
    reveal(Seq::filter);
    if s.len() > 0 {
        lemma_filter_members(s.drop_last(), pred);
        let out = s.filter(pred);
        let kept = s.drop_last().filter(pred);
        assert forall|i: int| 0 <= i < out.len() implies s.contains(#[trigger] out[i]) by {
            if i < kept.len() {
                assert(out[i] == kept[i]);
                assert(s.drop_last().contains(kept[i]));
                let j = choose|j: int| 0 <= j < s.drop_last().len() && s.drop_last()[j] == kept[i];
                assert(s[j] == kept[i]);
            } else {
                assert(out[i] == s.last());
            }
        }
    }
}

/// Listing with a prefix returns exactly the store's keys that carry
/// the prefix: that subset, in the store's order, each key once.
pub proof fn lemma_list_prefix(keys: Seq<Seq<char>>, prefix: Seq<char>, ex: ListExchangeV)
    requires
        listable_keys(keys),
        faithful_list_exchange(keys, prefix, ex),
    ensures
        spec_list_result(ex) == Ok::<Seq<Seq<char>>, ErrV>(keys_with_prefix(keys, prefix)),
{
    let pred = |k: Seq<char>| prefix.is_prefix_of(k);
    let selected = keys_with_prefix(keys, prefix);
    lemma_filter_members(keys, pred);
    assert forall|i: int| 0 <= i < selected.len() implies wire_line(#[trigger] selected[i]) by {
        assert(keys.contains(selected[i]));
        let j = choose|j: int| 0 <= j < keys.len() && keys[j] == selected[i];
        assert(wire_line(keys[j]));
    }
    lemma_split_join(selected);
}

/// Listing without a prefix returns every key the store holds, each
/// exactly once, in the store's own order.
pub proof fn lemma_list_all(keys: Seq<Seq<char>>, ex: ListExchangeV)
    requires
        listable_keys(keys),
        faithful_list_exchange(keys, Seq::empty(), ex),
    ensures
        spec_list_result(ex) == Ok::<Seq<Seq<char>>, ErrV>(keys),
{
    lemma_list_prefix(keys, Seq::empty(), ex);
    lemma_empty_prefix_keeps_all(keys);
}

/// Listing without a prefix and listing with the empty prefix are the
/// same operation: they wire the same request.
pub proof fn lemma_list_request_empty_prefix(base: Seq<char>)
    ensures
        spec_list_request(base, None) == spec_list_request(base, Some(Seq::empty())),
{
    assert(spec_list_request(base, None) =~~= spec_list_request(base, Some(Seq::empty())));
}

/// The path of a get identifies the key it reads: two get requests
/// against one base with the same URL ask for the same key.
pub proof fn lemma_get_url_identifies_key(base: Seq<char>, key1: Seq<char>, key2: Seq<char>)
    requires
        spec_get_request(base, key1).url == spec_get_request(base, key2).url,
    ensures
        key1 == key2,
{
    (base + seq!['/']).lemma_concat_injective(percent_encoded(key1), percent_encoded(key2));
    lemma_percent_encoded_injective(key1, key2);
}

/// The form body of a set identifies the pair it carries: two set
/// requests with the same body store the same value under the same
/// key, however the pair was encoded.
pub proof fn lemma_set_body_identifies_pair(
    base1: Seq<char>,
    key1: Seq<char>,
    value1: Seq<char>,
    base2: Seq<char>,
    key2: Seq<char>,
    value2: Seq<char>,
)
    requires
        spec_set_request(base1, key1, value1).body == spec_set_request(base2, key2, value2).body,
    ensures
        key1 == key2,
        value1 == value2,
{
    let e1 = percent_encoded(key1);
    let f1 = percent_encoded(value1);
    let e2 = percent_encoded(key2);
    let f2 = percent_encoded(value2);
    let body = e1 + seq!['='] + f1;
    assert(body == e2 + seq!['='] + f2);
    lemma_percent_encoded_chars(key1);
    lemma_percent_encoded_chars(key2);
    assert(!is_unreserved_char('=') && '=' != '%') by {
        assert('=' as u32 == 61);
    }
    if e1.len() < e2.len() {
        assert(body[e1.len() as int] == '=');
        assert(body[e1.len() as int] == e2[e1.len() as int]);
        assert(false);
    } else if e2.len() < e1.len() {
        assert(body[e2.len() as int] == '=');
        assert(body[e2.len() as int] == e1[e2.len() as int]);
        assert(false);
    }
    assert(e1 =~= body.take(e1.len() as int));
    assert(e2 =~= body.take(e2.len() as int));
    assert(f1 =~= body.skip(e1.len() as int + 1));
    assert(f2 =~= body.skip(e2.len() as int + 1));
    lemma_percent_encoded_injective(key1, key2);
    lemma_percent_encoded_injective(value1, value2);
}

} // verus!
