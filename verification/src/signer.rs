//! Signing of calls.
//!
//! A signed call carries the caller's parameters, a freshness token under
//! `tonce`, the access key under `access_key`, and under `signature` the
//! signature of method, path and all of those. The three names are
//! reserved: what the caller stored under them is overwritten.

use crate::canonical::{
    all_plain, ascending, canonical_query, joined, lemma_canonical_entries,
    lemma_occurrences_concat, lemma_occurrences_none, lemma_query_binds_parameters,
    lemma_query_counts_characters, lemma_replaced_in_name, lemma_replaced_in_value,
    lemma_same_pairs_same_map, occurrences,
};
use crate::clock::unix_seconds;
use crate::method::Method;
use crate::params::{
    entries_map, has_key, keys_distinct, lemma_put_is_insert, lemma_put_keeps_distinct,
    lemma_put_other_name, put, Entry, ParamSet,
};
use crate::request::{absolute_url, ApiCall, OutgoingRequest};
use crate::signature::{
    hex_lower, lemma_message_binds_parts, message_tag, message_text, signature_message,
    signature_of_tag, signature_text,
};
use crate::tonce::{format_tonce, lemma_tonce_digits, next_counter, tonce_text, TonceCounter};
use vstd::prelude::*;

verus! {

/// The parameters of a call with the token and the access key put in.
pub open spec fn identified(entries: Seq<Entry>, access_key: Seq<char>, tonce: Seq<char>) -> Seq<
    Entry,
> {
    put(put(entries, "tonce"@, tonce), "access_key"@, access_key)
}

/// The text that is signed for a call whose parameters already hold token
/// and access key.
pub open spec fn signed_text(method: Method, path: Seq<char>, working: Seq<Entry>) -> Seq<char> {
    message_text(method, path, canonical_query(entries_map(working)))
}

/// The signature of a call whose parameters already hold token and access key.
pub open spec fn call_signature(
    secret_key: Seq<char>,
    method: Method,
    path: Seq<char>,
    working: Seq<Entry>,
) -> Seq<char> {
    signature_text(secret_key, signed_text(method, path, working))
}

/// The parameters that go on the wire for a signed call.
pub open spec fn signed_entries(
    access_key: Seq<char>,
    secret_key: Seq<char>,
    method: Method,
    path: Seq<char>,
    entries: Seq<Entry>,
    tonce: Seq<char>,
) -> Seq<Entry> {
    let working = identified(entries, access_key, tonce);
    put(working, "signature"@, call_signature(secret_key, method, path, working))
}

/// `request` is the signed form of `call` under the given keys and token.
pub open spec fn is_signed_form(
    request: OutgoingRequest,
    call: ApiCall,
    access_key: Seq<char>,
    secret_key: Seq<char>,
    tonce: Seq<char>,
) -> bool {
    &&& request.method == call.method
    &&& request.url@ == call.origin@ + call.path@
    &&& request.timeout_secs == call.timeout_secs
    &&& request.params.entries() == signed_entries(
        access_key,
        secret_key,
        call.method,
        call.path@,
        call.params.entries(),
        tonce,
    )
}

/// `request` is `call` as it stands: nothing is added to the parameters.
pub open spec fn is_plain_form(request: OutgoingRequest, call: ApiCall) -> bool {
    &&& request.method == call.method
    &&& request.url@ == call.origin@ + call.path@
    &&& request.timeout_secs == call.timeout_secs
    &&& request.params == call.params
}

/// A copy of `params` that also holds the token and the access key.
pub fn with_identity(params: &ParamSet, access_key: &str, tonce: &str) -> (working: ParamSet)
    ensures
        working.entries() == identified(params.entries(), access_key@, tonce@),
{
    let mut working = params.duplicate();
    working.insert("tonce", tonce);
    working.insert("access_key", access_key);
    working
}

/// `working` with the signature that stands for `tag`.
pub fn with_signature(working: ParamSet, tag: &[u8]) -> (signed: ParamSet)
    ensures
        signed.entries() == put(working.entries(), "signature"@, hex_lower(tag@)),
{
    let mut signed = working;
    let signature = signature_of_tag(tag);
    signed.insert("signature", signature.as_str());
    signed
}

/// The parameters of the signed call: token and access key are put in, the
/// canonical query of the result is signed together with method and path,
/// and the signature, 64 hexadecimal characters, is put in last.
pub fn sign_with_tonce(
    access_key: &str,
    secret_key: &str,
    method: Method,
    path: &str,
    params: &ParamSet,
    tonce: &str,
) -> (signed: ParamSet)
    ensures
        signed.entries() == signed_entries(
            access_key@,
            secret_key@,
            method,
            path@,
            params.entries(),
            tonce@,
        ),
        call_signature(
            secret_key@,
            method,
            path@,
            identified(params.entries(), access_key@, tonce@),
        ).len() == 64,
{
    let working = with_identity(params, access_key, tonce);
    let query = working.canonical_query();
    let message = signature_message(method, path, query.as_str());
    let tag = message_tag(secret_key, message.as_str());
    with_signature(working, tag.as_slice())
}

/// The request for a public call: the caller's parameters and nothing else.
/// No token, access key or signature is added.
pub fn plain_request(call: ApiCall) -> (request: OutgoingRequest)
    ensures
        is_plain_form(request, call),
{
    let url = absolute_url(call.origin.as_str(), call.path.as_str());
    OutgoingRequest {
        method: call.method,
        url,
        params: call.params,
        timeout_secs: call.timeout_secs,
    }
}

/// Why a call could not be signed.
#[derive(Debug, PartialEq, Eq, Clone, Copy, Structural)]
pub enum SignError {
    /// The system clock stands before the Unix epoch, so there is no
    /// second count to build a token from.
    ClockBeforeEpoch,
}

/// The credentials of one account together with the counter behind its
/// freshness tokens. Signing takes the signer by `&mut`, so the step of
/// the counter and the token made from it cannot be torn apart.
pub struct Signer {
    access_key: String,
    secret_key: String,
    counter: TonceCounter,
}

impl Signer {
    /// The public half of the credentials.
    pub closed spec fn access_key(&self) -> Seq<char> {
        self.access_key@
    }

    /// The private half of the credentials.
    pub closed spec fn secret_key(&self) -> Seq<char> {
        self.secret_key@
    }

    /// The counter value that went into the last token.
    pub closed spec fn counter(&self) -> nat {
        self.counter.value()
    }

    /// A signer for the given credentials, with the counter at 0.
    pub fn new(access_key: &str, secret_key: &str) -> (signer: Signer)
        ensures
            signer.access_key() == access_key@,
            signer.secret_key() == secret_key@,
            signer.counter() == 0,
    {
        Signer {
            access_key: String::from_str(access_key),
            secret_key: String::from_str(secret_key),
            counter: TonceCounter::new(),
        }
    }

    /// Steps the counter and returns the token for the second `unix_secs`.
    pub fn next_tonce(&mut self, unix_secs: u64) -> (tonce: String)
        ensures
            final(self).access_key() == old(self).access_key(),
            final(self).secret_key() == old(self).secret_key(),
            final(self).counter() == next_counter(old(self).counter()),
            tonce@ == tonce_text(unix_secs as nat, final(self).counter()),
    {
        let value = self.counter.advance();
        format_tonce(unix_secs, value)
    }

    /// Signs `call` for the second `unix_secs`: the counter is stepped, and
    /// the request carries the caller's parameters, the new token, the
    /// access key and the signature over all of them.
    pub fn sign_at(&mut self, call: ApiCall, unix_secs: u64) -> (request: OutgoingRequest)
        ensures
            final(self).access_key() == old(self).access_key(),
            final(self).secret_key() == old(self).secret_key(),
            final(self).counter() == next_counter(old(self).counter()),
            is_signed_form(
                request,
                call,
                old(self).access_key(),
                old(self).secret_key(),
                tonce_text(unix_secs as nat, final(self).counter()),
            ),
    {
        let tonce = self.next_tonce(unix_secs);
        let params = sign_with_tonce(
            self.access_key.as_str(),
            self.secret_key.as_str(),
            call.method,
            call.path.as_str(),
            &call.params,
            tonce.as_str(),
        );
        let url = absolute_url(call.origin.as_str(), call.path.as_str());
        OutgoingRequest { method: call.method, url, params, timeout_secs: call.timeout_secs }
    }

    /// The request for `call` at the second `unix_secs`: signed where the
    /// call asks for it, and as it stands where it does not. Only a signed
    /// call steps the counter.
    pub fn prepare_at(&mut self, call: ApiCall, unix_secs: u64) -> (request: OutgoingRequest)
        ensures
            final(self).access_key() == old(self).access_key(),
            final(self).secret_key() == old(self).secret_key(),
            call.signed ==> final(self).counter() == next_counter(old(self).counter())
                && is_signed_form(
                request,
                call,
                old(self).access_key(),
                old(self).secret_key(),
                tonce_text(unix_secs as nat, final(self).counter()),
            ),
            !call.signed ==> final(self).counter() == old(self).counter() && is_plain_form(
                request,
                call,
            ),
    {
        if call.signed {
            self.sign_at(call, unix_secs)
        } else {
            plain_request(call)
        }
    }

    /// The request for `call` now. A public call needs no clock and always
    /// succeeds. A signed call is signed for the second the system clock
    /// shows, whatever that is; where the clock stands before the Unix
    /// epoch the call is refused and the counter stays as it was.
    pub fn prepare(&mut self, call: ApiCall) -> (outcome: Result<OutgoingRequest, SignError>)
        ensures
            final(self).access_key() == old(self).access_key(),
            final(self).secret_key() == old(self).secret_key(),
            !call.signed ==> final(self).counter() == old(self).counter() && outcome is Ok
                && is_plain_form(outcome->Ok_0, call),
            call.signed ==> match outcome {
                Ok(request) => final(self).counter() == next_counter(old(self).counter())
                    && exists|unix_secs: u64|
                    is_signed_form(
                        request,
                        call,
                        old(self).access_key(),
                        old(self).secret_key(),
                        #[trigger] tonce_text(unix_secs as nat, final(self).counter()),
                    ),
                Err(error) => error == SignError::ClockBeforeEpoch && final(self).counter() == old(
                    self,
                ).counter(),
            },
    {
        if !call.signed {
            return Ok(plain_request(call));
        }
        match unix_seconds() {
            Some(unix_secs) => Ok(self.sign_at(call, unix_secs)),
            None => Err(SignError::ClockBeforeEpoch),
        }
    }
}

/// What a signed call carries, as a mapping: the caller's parameters with
/// the token, the access key and the signature stored over them, in that
/// order. A value that the caller stored under one of the three names is
/// replaced.
pub proof fn lemma_signed_map(
    access_key: Seq<char>,
    secret_key: Seq<char>,
    method: Method,
    path: Seq<char>,
    entries: Seq<Entry>,
    tonce: Seq<char>,
)
    requires
        keys_distinct(entries),
    ensures
        keys_distinct(signed_entries(access_key, secret_key, method, path, entries, tonce)),
        entries_map(signed_entries(access_key, secret_key, method, path, entries, tonce))
            == entries_map(entries).insert("tonce"@, tonce).insert(
            "access_key"@,
            access_key,
        ).insert(
            "signature"@,
            call_signature(secret_key, method, path, identified(entries, access_key, tonce)),
        ),
{
    let with_tonce = put(entries, "tonce"@, tonce);
    let working = identified(entries, access_key, tonce);
    let signature = call_signature(secret_key, method, path, working);
    lemma_put_keeps_distinct(entries, "tonce"@, tonce);
    lemma_put_is_insert(entries, "tonce"@, tonce);
    lemma_put_keeps_distinct(with_tonce, "access_key"@, access_key);
    lemma_put_is_insert(with_tonce, "access_key"@, access_key);
    lemma_put_keeps_distinct(working, "signature"@, signature);
    lemma_put_is_insert(working, "signature"@, signature);
}

/// Signing is repeatable: whatever is signed twice with the same keys,
/// method, path, parameters and token comes out the same both times.
pub proof fn lemma_signing_repeatable(
    first: ParamSet,
    second: ParamSet,
    access_key: Seq<char>,
    secret_key: Seq<char>,
    method: Method,
    path: Seq<char>,
    entries: Seq<Entry>,
    tonce: Seq<char>,
)
    requires
        first.entries() == signed_entries(access_key, secret_key, method, path, entries, tonce),
        second.entries() == signed_entries(access_key, secret_key, method, path, entries, tonce),
    ensures
        first.entries() == second.entries(),
        first@ == second@,
        first@["signature"@] == second@["signature"@],
{
}

/// The signature does not depend on the order in which the caller's
/// parameters are held: two listings of the same mapping are signed alike.
pub proof fn lemma_signature_ignores_order(
    secret_key: Seq<char>,
    access_key: Seq<char>,
    method: Method,
    path: Seq<char>,
    a: Seq<Entry>,
    b: Seq<Entry>,
    tonce: Seq<char>,
)
    requires
        keys_distinct(a),
        keys_distinct(b),
        entries_map(a) == entries_map(b),
    ensures
        call_signature(secret_key, method, path, identified(a, access_key, tonce))
            == call_signature(secret_key, method, path, identified(b, access_key, tonce)),
{
    lemma_put_keeps_distinct(a, "tonce"@, tonce);
    lemma_put_keeps_distinct(b, "tonce"@, tonce);
    lemma_put_is_insert(a, "tonce"@, tonce);
    lemma_put_is_insert(b, "tonce"@, tonce);
    lemma_put_is_insert(put(a, "tonce"@, tonce), "access_key"@, access_key);
    lemma_put_is_insert(put(b, "tonce"@, tonce), "access_key"@, access_key);
}

/// What is signed changes with the call: where one of method, path and
/// parameters changes and the other two stay, the signed text changes. Of
/// the parameters this is stated for sets without `&` and `=` in names and
/// values.
pub proof fn lemma_signed_text_binds_call(
    method_a: Method,
    path_a: Seq<char>,
    working_a: Seq<Entry>,
    method_b: Method,
    path_b: Seq<char>,
    working_b: Seq<Entry>,
)
    requires
        keys_distinct(working_a),
        keys_distinct(working_b),
        ({
            let same_parameters = entries_map(working_a) == entries_map(working_b);
            ||| method_a != method_b && path_a == path_b && same_parameters
            ||| method_a == method_b && path_a != path_b && same_parameters
            ||| method_a == method_b && path_a == path_b && !same_parameters && all_plain(
                working_a,
            ) && all_plain(working_b)
        }),
    ensures
        signed_text(method_a, path_a, working_a) != signed_text(method_b, path_b, working_b),
{
    let query_a = canonical_query(entries_map(working_a));
    let query_b = canonical_query(entries_map(working_b));
    if entries_map(working_a) != entries_map(working_b) {
        lemma_query_binds_parameters(working_a, working_b);
    }
    lemma_message_binds_parts(method_a, path_a, query_a, method_b, path_b, query_b);
}

/// Replacing one character in the value of one parameter changes the text
/// that is signed.
pub proof fn lemma_signed_text_changes_with_value(
    method: Method,
    path: Seq<char>,
    working: Seq<Entry>,
    entry: int,
    at: int,
    c: char,
)
    requires
        keys_distinct(working),
        0 <= entry < working.len(),
        0 <= at < working[entry].1.len(),
        working[entry].1[at] != c,
    ensures
        signed_text(
            method,
            path,
            working.update(entry, (working[entry].0, working[entry].1.update(at, c))),
        ) != signed_text(method, path, working),
{
    let changed = working.update(entry, (working[entry].0, working[entry].1.update(at, c)));
    assert(keys_distinct(changed)) by {
        assert forall|i: int, j: int| 0 <= i < j < changed.len() implies (#[trigger] changed[i]).0
            != (#[trigger] changed[j]).0 by {
            assert(working[i].0 != working[j].0);
        }
    }
    lemma_replaced_in_value(working, entry, at, c);
    lemma_query_counts_characters(changed, working, c);
    lemma_message_binds_parts(
        method,
        path,
        canonical_query(entries_map(changed)),
        method,
        path,
        canonical_query(entries_map(working)),
    );
}

/// Replacing one character in a value that the caller stored changes the
/// text that is signed, unless the value stands under `tonce` or
/// `access_key`, where it is overwritten before anything is signed.
pub proof fn lemma_signed_text_changes_with_caller_value(
    method: Method,
    path: Seq<char>,
    entries: Seq<Entry>,
    access_key: Seq<char>,
    tonce: Seq<char>,
    entry: int,
    at: int,
    c: char,
)
    requires
        keys_distinct(entries),
        0 <= entry < entries.len(),
        0 <= at < entries[entry].1.len(),
        entries[entry].1[at] != c,
        entries[entry].0 != "tonce"@,
        entries[entry].0 != "access_key"@,
    ensures
        signed_text(
            method,
            path,
            identified(
                entries.update(entry, (entries[entry].0, entries[entry].1.update(at, c))),
                access_key,
                tonce,
            ),
        ) != signed_text(method, path, identified(entries, access_key, tonce)),
{
    let replaced = (entries[entry].0, entries[entry].1.update(at, c));
    let with_tonce = put(entries, "tonce"@, tonce);
    let working = identified(entries, access_key, tonce);
    lemma_put_other_name(entries, entry, replaced, "tonce"@, tonce);
    lemma_put_keeps_distinct(entries, "tonce"@, tonce);
    lemma_put_other_name(with_tonce, entry, replaced, "access_key"@, access_key);
    lemma_put_keeps_distinct(with_tonce, "access_key"@, access_key);
    assert(identified(entries.update(entry, replaced), access_key, tonce) == working.update(
        entry,
        replaced,
    ));
    assert(working[entry] == entries[entry]);
    lemma_signed_text_changes_with_value(method, path, working, entry, at, c);
}

/// Replacing one character in the name of one parameter changes the text
/// that is signed, as long as the new name is not the name of another
/// parameter.
pub proof fn lemma_signed_text_changes_with_name(
    method: Method,
    path: Seq<char>,
    working: Seq<Entry>,
    entry: int,
    at: int,
    c: char,
)
    requires
        keys_distinct(working),
        0 <= entry < working.len(),
        0 <= at < working[entry].0.len(),
        working[entry].0[at] != c,
        keys_distinct(working.update(entry, (working[entry].0.update(at, c), working[entry].1))),
    ensures
        signed_text(
            method,
            path,
            working.update(entry, (working[entry].0.update(at, c), working[entry].1)),
        ) != signed_text(method, path, working),
{
    let changed = working.update(entry, (working[entry].0.update(at, c), working[entry].1));
    lemma_replaced_in_name(working, entry, at, c);
    lemma_query_counts_characters(changed, working, c);
    lemma_message_binds_parts(
        method,
        path,
        canonical_query(entries_map(changed)),
        method,
        path,
        canonical_query(entries_map(working)),
    );
}

/// With no parameters from the caller, the signed text is the access key
/// and the token with exactly one `&`, the one between them.
pub proof fn lemma_bare_query(access_key: Seq<char>, tonce: Seq<char>)
    ensures
        canonical_query(entries_map(identified(Seq::empty(), access_key, tonce)))
            == "access_key="@ + access_key + "&tonce="@ + tonce,
{
    reveal_strlit("tonce");
    reveal_strlit("access_key");
    reveal_strlit("access_key=");
    reveal_strlit("&tonce=");
    let none = Seq::<Entry>::empty();
    let one = put(none, "tonce"@, tonce);
    assert(!has_key(none, "tonce"@));
    assert(one =~= seq![("tonce"@, tonce)]);
    assert(!has_key(one, "access_key"@)) by {
        assert("tonce"@[0] != "access_key"@[0]);
    }
    let held = identified(none, access_key, tonce);
    assert(held =~= seq![("tonce"@, tonce), ("access_key"@, access_key)]);
    let sorted = seq![("access_key"@, access_key), ("tonce"@, tonce)];
    assert(keys_distinct(sorted)) by {
        assert("tonce"@[0] != "access_key"@[0]);
    }
    assert(sorted.to_multiset() =~= held.to_multiset()) by {
        broadcast use vstd::seq_lib::group_to_multiset_ensures;

        assert(held =~= seq![("tonce"@, tonce)].push(("access_key"@, access_key)));
        assert(sorted =~= seq![("access_key"@, access_key)].push(("tonce"@, tonce)));
        assert(seq![("tonce"@, tonce)] =~= Seq::<Entry>::empty().push(("tonce"@, tonce)));
        assert(seq![("access_key"@, access_key)] =~= Seq::<Entry>::empty().push(
            ("access_key"@, access_key),
        ));
    }
    lemma_same_pairs_same_map(sorted, held);
    assert(ascending(sorted));
    lemma_canonical_entries(sorted, entries_map(held));
    assert(sorted.drop_last() =~= seq![("access_key"@, access_key)]);
    reveal_with_fuel(joined, 3);
    assert(joined(sorted) =~= "access_key="@ + access_key + "&tonce="@ + tonce);
}

/// With no parameters from the caller and an access key free of `&`, the
/// signed text of any second and counter value holds `&` exactly once.
pub proof fn lemma_bare_query_one_separator(access_key: Seq<char>, unix_secs: nat, counter: nat)
    requires
        forall|i: int| 0 <= i < access_key.len() ==> access_key[i] != '&',
    ensures
        occurrences(
            canonical_query(
                entries_map(identified(Seq::empty(), access_key, tonce_text(unix_secs, counter))),
            ),
            '&',
        ) == 1,
{
    let tonce = tonce_text(unix_secs, counter);
    lemma_bare_query(access_key, tonce);
    lemma_tonce_digits(unix_secs, counter);
    reveal_strlit("access_key=");
    reveal_strlit("&tonce=");
    let a = "access_key="@;
    let b = "&tonce="@;
    lemma_occurrences_none(a, '&');
    lemma_occurrences_none(access_key, '&');
    lemma_occurrences_none(tonce, '&');
    assert(occurrences(b, '&') == 1) by {
        assert(b =~= seq!['&'] + b.subrange(1, 7));
        lemma_occurrences_concat(seq!['&'], b.subrange(1, 7), '&');
        lemma_occurrences_none(b.subrange(1, 7), '&');
        assert(seq!['&'].drop_last() =~= Seq::<char>::empty());
        reveal_with_fuel(occurrences, 2);
    }
    lemma_occurrences_concat(a, access_key, '&');
    lemma_occurrences_concat(a + access_key, b, '&');
    lemma_occurrences_concat(a + access_key + b, tonce, '&');
}

/// A request for a public call holds one of the reserved names only where
/// the caller stored it: with none of them among the caller's parameters,
/// none of `access_key`, `tonce` and `signature` goes on the wire.
pub proof fn lemma_plain_request_adds_nothing(request: OutgoingRequest, call: ApiCall)
    requires
        is_plain_form(request, call),
        !has_key(call.params.entries(), "access_key"@),
        !has_key(call.params.entries(), "tonce"@),
        !has_key(call.params.entries(), "signature"@),
    ensures
        !has_key(request.params.entries(), "access_key"@),
        !has_key(request.params.entries(), "tonce"@),
        !has_key(request.params.entries(), "signature"@),
        !request.params@.dom().contains("access_key"@),
        !request.params@.dom().contains("tonce"@),
        !request.params@.dom().contains("signature"@),
{
}

} // verus!
