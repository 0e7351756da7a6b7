//! The text of a request URL: the base address, then a query string that
//! carries the access credential, the operation's tag and the operation's
//! own parameters.

use crate::encoding::{
    is_encoded_char, lemma_percent_encode_chars, lemma_percent_encode_injective, percent_encode,
    percent_encode_bytes, push_encoded,
};
use vstd::prelude::*;
use vstd::utf8::encode_utf8;

verus! {

/// One parameter as it stands in a query string: name, `=`, value, both
/// percent-encoded.
pub open spec fn pair_text(name: Seq<char>, value: Seq<char>) -> Seq<char> {
    percent_encode(name) + seq!['='] + percent_encode(value)
}

/// The query string of a request: `key`, then `op`, then the operation's
/// parameters in their order, with `&` between them.
pub open spec fn query_text(
    api_key: Seq<char>,
    operation: Seq<char>,
    params: Seq<(Seq<char>, Seq<char>)>,
) -> Seq<char>
    decreases params.len(),
{
    if params.len() == 0 {
        "key="@ + percent_encode(api_key) + "&op="@ + percent_encode(operation)
    } else {
        query_text(api_key, operation, params.drop_last()) + seq!['&'] + pair_text(
            params.last().0,
            params.last().1,
        )
    }
}

/// The whole URL of a request.
pub open spec fn url_text(
    base_url: Seq<char>,
    api_key: Seq<char>,
    operation: Seq<char>,
    params: Seq<(Seq<char>, Seq<char>)>,
) -> Seq<char> {
    base_url + seq!['?'] + query_text(api_key, operation, params)
}

/// The names and values of a parameter list as character sequences.
pub open spec fn params_view(params: Seq<(String, String)>) -> Seq<(Seq<char>, Seq<char>)> {
    Seq::new(params.len(), |i: int| (params[i].0@, params[i].1@))
}

/// The parts of a text between its `&` separators, in their order. A text
/// without a separator is one part.
pub open spec fn query_fields(text: Seq<char>) -> Seq<Seq<char>>
    decreases text.len(),
{
    if text.len() == 0 {
        seq![Seq::empty()]
    } else {
        let before = query_fields(text.drop_last());
        if text.last() == '&' {
            before.push(Seq::empty())
        } else {
            before.update(before.len() - 1, before.last().push(text.last()))
        }
    }
}

/// No character of the text is `&` or `=`.
pub open spec fn has_no_separator(text: Seq<char>) -> bool {
    forall|i: int| 0 <= i < text.len() ==> #[trigger] text[i] != '&' && text[i] != '='
}

/// Every text has at least one field.
proof fn lemma_fields_nonempty(text: Seq<char>)
    ensures
        query_fields(text).len() >= 1,
    decreases text.len(),
{
    if text.len() > 0 {
        lemma_fields_nonempty(text.drop_last());
    }
}

/// Appending a text without `&` lengthens the last field and leaves the
/// others as they are.
proof fn lemma_fields_extend(head: Seq<char>, tail: Seq<char>)
    requires
        forall|i: int| 0 <= i < tail.len() ==> #[trigger] tail[i] != '&',
    ensures
        query_fields(head).len() >= 1,
        query_fields(head + tail) == query_fields(head).update(
            query_fields(head).len() - 1,
            query_fields(head).last() + tail,
        ),
    decreases tail.len(),
{
    lemma_fields_nonempty(head);
    let fields = query_fields(head);
    if tail.len() == 0 {
        assert(head + tail =~= head);
        assert(fields.last() + tail =~= fields.last());
        assert(fields.update(fields.len() - 1, fields.last()) =~= fields);
    } else {
        let shorter = tail.drop_last();
        assert((head + tail).drop_last() =~= head + shorter);
        assert((head + tail).last() == tail.last());
        lemma_fields_extend(head, shorter);
        let mid = query_fields(head + shorter);
        assert(mid.last() == fields.last() + shorter);
        assert(mid.last().push(tail.last()) =~= fields.last() + tail);
        assert(mid.update(mid.len() - 1, fields.last() + tail) =~= fields.update(
            fields.len() - 1,
            fields.last() + tail,
        ));
    }
}

/// A text without `&` is a single field, and appending `&` and such a text
/// appends one field.
pub proof fn lemma_fields_append(head: Seq<char>, field: Seq<char>)
    requires
        forall|i: int| 0 <= i < field.len() ==> #[trigger] field[i] != '&',
    ensures
        query_fields(field) == seq![field],
        query_fields(head + seq!['&'] + field) == query_fields(head).push(field),
{
    let none = Seq::<char>::empty();
    lemma_fields_extend(none, field);
    assert(none + field =~= field);
    assert(query_fields(none) =~= seq![none]);
    assert(seq![none].update(0, none + field) =~= seq![field]);

    let cut = head + seq!['&'];
    assert(cut.drop_last() =~= head);
    lemma_fields_extend(cut, field);
    assert(query_fields(cut) == query_fields(head).push(none));
    assert(query_fields(head).push(none).update(query_fields(head).len() as int, none + field)
        =~= query_fields(head).push(field));
}

/// An encoded text holds no separator.
pub proof fn lemma_encoded_has_no_separator(text: Seq<char>)
    ensures
        has_no_separator(percent_encode(text)),
{
    lemma_percent_encode_chars(encode_utf8(text));
    let encoded = percent_encode_bytes(encode_utf8(text));
    assert forall|i: int| 0 <= i < encoded.len() implies #[trigger] encoded[i] != '&'
        && encoded[i] != '=' by {
        assert(is_encoded_char(encoded[i]));
    }
}

/// Read at its `&` separators, a query string holds the credential first
/// and once, then the operation, then each parameter in its place: nothing
/// that a key, a tag, a name or a value contains can add, remove or move a
/// field.
pub proof fn lemma_query_fields(
    api_key: Seq<char>,
    operation: Seq<char>,
    params: Seq<(Seq<char>, Seq<char>)>,
)
    ensures
        query_fields(query_text(api_key, operation, params)) == seq![
            "key="@ + percent_encode(api_key),
            "op="@ + percent_encode(operation),
        ] + Seq::new(params.len(), |i: int| pair_text(params[i].0, params[i].1)),
    decreases params.len(),
{
    reveal_strlit("key=");
    reveal_strlit("&op=");
    reveal_strlit("op=");
    let first = "key="@ + percent_encode(api_key);
    let second = "op="@ + percent_encode(operation);
    let rest = Seq::new(params.len(), |i: int| pair_text(params[i].0, params[i].1));
    if params.len() == 0 {
        lemma_encoded_has_no_separator(api_key);
        lemma_encoded_has_no_separator(operation);
        assert(query_text(api_key, operation, params) =~= first + seq!['&'] + second);
        lemma_fields_append(first, second);
        lemma_fields_append(Seq::empty(), first);
        assert(seq![first].push(second) =~= seq![first, second] + rest);
    } else {
        let shorter = params.drop_last();
        let last = pair_text(params.last().0, params.last().1);
        lemma_query_fields(api_key, operation, shorter);
        lemma_encoded_has_no_separator(params.last().0);
        lemma_encoded_has_no_separator(params.last().1);
        lemma_fields_append(query_text(api_key, operation, shorter), last);
        let shorter_rest = Seq::new(shorter.len(), |i: int| pair_text(shorter[i].0, shorter[i].1));
        assert((seq![first, second] + shorter_rest).push(last) =~= seq![first, second] + rest);
    }
}

/// Two parameters that are written alike have the same name and the same
/// value.
pub proof fn lemma_pair_injective(
    name1: Seq<char>,
    value1: Seq<char>,
    name2: Seq<char>,
    value2: Seq<char>,
)
    requires
        pair_text(name1, value1) == pair_text(name2, value2),
    ensures
        name1 == name2,
        value1 == value2,
{
    let n1 = percent_encode(name1);
    let n2 = percent_encode(name2);
    let v1 = percent_encode(value1);
    let v2 = percent_encode(value2);
    let eq = seq!['='];
    lemma_encoded_has_no_separator(name1);
    lemma_encoded_has_no_separator(name2);
    let text1 = n1 + eq + v1;
    let text2 = n2 + eq + v2;
    if n1.len() < n2.len() {
        assert(text1[n1.len() as int] == '=');
        assert(text2[n1.len() as int] == n2[n1.len() as int]);
    }
    if n2.len() < n1.len() {
        assert(text2[n2.len() as int] == '=');
        assert(text1[n2.len() as int] == n1[n2.len() as int]);
    }
    assert(n1 =~= text1.take(n1.len() as int));
    assert(n2 =~= text2.take(n2.len() as int));
    assert(v1 =~= text1.skip(n1.len() as int + 1));
    assert(v2 =~= text2.skip(n2.len() as int + 1));
    lemma_percent_encode_injective(name1, name2);
    lemma_percent_encode_injective(value1, value2);
}

/// Under one base address, two requests with the same URL have the same
/// credential, the same operation and the same parameters.
pub proof fn lemma_url_injective(
    base_url: Seq<char>,
    api_key1: Seq<char>,
    operation1: Seq<char>,
    params1: Seq<(Seq<char>, Seq<char>)>,
    api_key2: Seq<char>,
    operation2: Seq<char>,
    params2: Seq<(Seq<char>, Seq<char>)>,
)
    requires
        url_text(base_url, api_key1, operation1, params1) == url_text(
            base_url,
            api_key2,
            operation2,
            params2,
        ),
    ensures
        api_key1 == api_key2,
        operation1 == operation2,
        params1 == params2,
{
    let q1 = query_text(api_key1, operation1, params1);
    let q2 = query_text(api_key2, operation2, params2);
    let front = base_url + seq!['?'];
    assert(q1 =~= (front + q1).skip(front.len() as int));
    assert(q2 =~= (front + q2).skip(front.len() as int));
    lemma_query_fields(api_key1, operation1, params1);
    lemma_query_fields(api_key2, operation2, params2);
    let rest1 = Seq::new(params1.len(), |i: int| pair_text(params1[i].0, params1[i].1));
    let rest2 = Seq::new(params2.len(), |i: int| pair_text(params2[i].0, params2[i].1));
    let k1 = "key="@ + percent_encode(api_key1);
    let k2 = "key="@ + percent_encode(api_key2);
    let o1 = "op="@ + percent_encode(operation1);
    let o2 = "op="@ + percent_encode(operation2);
    let f1 = seq![k1, o1] + rest1;
    let f2 = seq![k2, o2] + rest2;
    assert(f1 == f2);
    assert(f1.len() == f2.len());
    assert(f1[0] == k1 && f2[0] == k2);
    assert(f1[1] == o1 && f2[1] == o2);
    assert(percent_encode(api_key1) =~= k1.skip("key="@.len() as int));
    assert(percent_encode(api_key2) =~= k2.skip("key="@.len() as int));
    assert(percent_encode(operation1) =~= o1.skip("op="@.len() as int));
    assert(percent_encode(operation2) =~= o2.skip("op="@.len() as int));
    lemma_percent_encode_injective(api_key1, api_key2);
    lemma_percent_encode_injective(operation1, operation2);
    assert forall|i: int| 0 <= i < params1.len() implies params1[i] == params2[i] by {
        assert(f1[i + 2] == rest1[i]);
        assert(f2[i + 2] == rest2[i]);
        lemma_pair_injective(params1[i].0, params1[i].1, params2[i].0, params2[i].1);
    }
    assert(params1 =~= params2);
}

/// Builds the URL of a request from its parts.
pub(crate) fn build_url(
    base_url: &str,
    api_key: &str,
    operation: &str,
    params: &Vec<(String, String)>,
) -> (url: String)
    ensures
        url@ == url_text(base_url@, api_key@, operation@, params_view(params@)),
{
    let mut url = base_url.to_owned();
    url.push('?');
    url.append("key=");
    push_encoded(&mut url, api_key);
    url.append("&op=");
    push_encoded(&mut url, operation);
    let ghost all = params_view(params@);
    assert(all.take(0) =~= Seq::empty());
    let mut i: usize = 0;
    while i < params.len()
        invariant
            i <= params.len(),
            all == params_view(params@),
            url@ == url_text(base_url@, api_key@, operation@, all.take(i as int)),
        decreases params.len() - i,
    {
        url.push('&');
        push_encoded(&mut url, params[i].0.as_str());
        url.push('=');
        push_encoded(&mut url, params[i].1.as_str());
        proof {
            let next = all.take(i + 1);
            assert(next.drop_last() =~= all.take(i as int));
            assert(next.last() == (params[i as int].0@, params[i as int].1@));
        }
        i += 1;
    }
    assert(all.take(i as int) =~= all);
    url
}

} // verus!
