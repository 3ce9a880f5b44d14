//! Response headers as plain pairs of name and value, in the order in which
//! the response gave them, and what a forwarded result keeps of them.
//!
//! Names are compared without regard to the case of the letters `A` to `Z`.

use vstd::prelude::*;

use crate::text::{
    equals_ignoring_case, lemma_text_pairs_push, lemma_texts_push, lowercase, text_of, text_pairs,
    texts, to_lowercase,
};

verus! {

/// The name, in lower case, of the header whose every occurrence is kept.
pub open spec fn set_cookie_name() -> Seq<char> {
    seq!['s', 'e', 't', '-', 'c', 'o', 'o', 'k', 'i', 'e']
}

/// The name, in lower case, of the header that carries a redirect target.
pub open spec fn location_name() -> Seq<char> {
    seq!['l', 'o', 'c', 'a', 't', 'i', 'o', 'n']
}

/// The name, in lower case, of the header that tells how the body is encoded.
pub open spec fn content_encoding_name() -> Seq<char> {
    seq!['c', 'o', 'n', 't', 'e', 'n', 't', '-', 'e', 'n', 'c', 'o', 'd', 'i', 'n', 'g']
}

/// The header `header` bears the lower case name `name`.
pub open spec fn is_named(header: (Seq<char>, Seq<char>), name: Seq<char>) -> bool {
    lowercase(header.0) == name
}

/// The values of the headers that bear the lower case name `name`, in order.
pub open spec fn values_of(headers: Seq<(Seq<char>, Seq<char>)>, name: Seq<char>) -> Seq<
    Seq<char>,
> {
    headers.filter(|h: (Seq<char>, Seq<char>)| is_named(h, name)).map_values(
        |h: (Seq<char>, Seq<char>)| h.1,
    )
}

/// The value of the first header that bears the lower case name `name`.
pub open spec fn first_value(headers: Seq<(Seq<char>, Seq<char>)>, name: Seq<char>) -> Option<
    Seq<char>,
> {
    let values = values_of(headers, name);
    if values.len() == 0 {
        None
    } else {
        Some(values[0])
    }
}

/// The value of the last header that bears the lower case name `name`.
pub open spec fn last_value(headers: Seq<(Seq<char>, Seq<char>)>, name: Seq<char>) -> Option<
    Seq<char>,
> {
    let values = values_of(headers, name);
    if values.len() == 0 {
        None
    } else {
        Some(values.last())
    }
}

/// The value that a table of distinct names holds for `name`.
pub open spec fn lookup(table: Seq<(Seq<char>, Seq<char>)>, name: Seq<char>) -> Option<Seq<char>>
    decreases table.len(),
{
    if table.len() == 0 {
        None
    } else if table[0].0 == name {
        Some(table[0].1)
    } else {
        lookup(table.drop_first(), name)
    }
}

/// `table` with `value` stored for `name`: in place of the value that the
/// first entry of that name held, or as a new last entry.
pub open spec fn upsert(table: Seq<(Seq<char>, Seq<char>)>, name: Seq<char>, value: Seq<char>) -> Seq<
    (Seq<char>, Seq<char>),
>
    decreases table.len(),
{
    if table.len() == 0 {
        seq![(name, value)]
    } else if table[0].0 == name {
        seq![(name, value)] + table.drop_first()
    } else {
        seq![table[0]] + upsert(table.drop_first(), name, value)
    }
}

/// The single-valued table of a response's headers: one entry for each
/// lower case name but `set-cookie`, in the order in which the names first
/// occur, holding the value of the name's last occurrence.
pub open spec fn collapsed(headers: Seq<(Seq<char>, Seq<char>)>) -> Seq<(Seq<char>, Seq<char>)>
    decreases headers.len(),
{
    if headers.len() == 0 {
        Seq::empty()
    } else {
        let rest = collapsed(headers.drop_last());
        let header = headers.last();
        if is_named(header, set_cookie_name()) {
            rest
        } else {
            upsert(rest, lowercase(header.0), header.1)
        }
    }
}

/// No name occurs twice in `table`.
pub open spec fn distinct_names(table: Seq<(Seq<char>, Seq<char>)>) -> bool {
    forall|i: int, j: int| 0 <= i < j < table.len() ==> table[i].0 != table[j].0
}

/// The values of a header list that grew by `header`.
pub proof fn lemma_values_push(
    headers: Seq<(Seq<char>, Seq<char>)>,
    header: (Seq<char>, Seq<char>),
    name: Seq<char>,
)
    ensures
        values_of(headers.push(header), name) == if is_named(header, name) {
            values_of(headers, name).push(header.1)
        } else {
            values_of(headers, name)
        },
{
    reveal(Seq::filter);
    let pred = |h: (Seq<char>, Seq<char>)| is_named(h, name);
    let pick = |h: (Seq<char>, Seq<char>)| h.1;
    assert(headers.push(header).drop_last() =~= headers);
    if is_named(header, name) {
        assert(headers.filter(pred).push(header).map_values(pick) =~= headers.filter(
            pred,
        ).map_values(pick).push(header.1));
    }
}

/// What storing a value does to a table of distinct names: the names stay
/// distinct, `name` now holds `value`, and every other name holds what it held.
pub proof fn lemma_upsert(
    table: Seq<(Seq<char>, Seq<char>)>,
    name: Seq<char>,
    value: Seq<char>,
    other: Seq<char>,
)
    requires
        distinct_names(table),
    ensures
        distinct_names(upsert(table, name, value)),
        lookup(upsert(table, name, value), other) == if other == name {
            Some(value)
        } else {
            lookup(table, other)
        },
    decreases table.len(),
{
    lemma_upsert_names(table, name, value);
    let stored = upsert(table, name, value);
    if table.len() == 0 {
        assert(stored[0] == (name, value));
        assert(stored.drop_first().len() == 0);
        assert(lookup(stored.drop_first(), other) is None);
    } else if table[0].0 == name {
        assert(stored[0] == (name, value));
        assert(stored.drop_first() =~= table.drop_first());
    } else {
        assert(stored[0] == table[0]);
        let rest = table.drop_first();
        assert(distinct_names(rest)) by {
            assert forall|i: int, j: int| 0 <= i < j < rest.len() implies rest[i].0 != rest[j].0 by {
                assert(rest[i] == table[i + 1] && rest[j] == table[j + 1]);
            }
        }
        lemma_upsert(rest, name, value, other);
        assert((seq![table[0]] + upsert(rest, name, value)).drop_first() =~= upsert(
            rest,
            name,
            value,
        ));
    }
}

/// Storing a value keeps the names of a table where they stand and adds at
/// most `name`, at the end.
proof fn lemma_upsert_names(table: Seq<(Seq<char>, Seq<char>)>, name: Seq<char>, value: Seq<char>)
    requires
        distinct_names(table),
    ensures
        distinct_names(upsert(table, name, value)),
        table.len() <= upsert(table, name, value).len() <= table.len() + 1,
        forall|i: int| 0 <= i < table.len() ==> upsert(table, name, value)[i].0 == table[i].0,
        upsert(table, name, value).len() == table.len() + 1 ==> {
            &&& upsert(table, name, value).last().0 == name
            &&& forall|i: int| 0 <= i < table.len() ==> table[i].0 != name
        },
    decreases table.len(),
{
    if table.len() == 0 {
    } else if table[0].0 == name {
    } else {
        let rest = table.drop_first();
        assert forall|i: int, j: int| 0 <= i < j < rest.len() implies rest[i].0 != rest[j].0 by {
            assert(rest[i] == table[i + 1] && rest[j] == table[j + 1]);
        }
        lemma_upsert_names(rest, name, value);
        let inner = upsert(rest, name, value);
        let out = seq![table[0]] + inner;
        assert forall|i: int| 0 <= i < table.len() implies out[i].0 == table[i].0 by {
            if i > 0 {
                assert(out[i] == inner[i - 1]);
                assert(rest[i - 1] == table[i]);
            }
        }
        assert forall|i: int, j: int| 0 <= i < j < out.len() implies out[i].0 != out[j].0 by {
            assert(out[j] == inner[j - 1]);
            if i > 0 {
                assert(out[i] == inner[i - 1]);
            } else if j - 1 < rest.len() {
                assert(inner[j - 1].0 == rest[j - 1].0);
                assert(rest[j - 1] == table[j]);
            }
        }
        if out.len() == table.len() + 1 {
            assert(out.last() == inner.last());
            assert forall|i: int| 0 <= i < table.len() implies table[i].0 != name by {
                if i > 0 {
                    assert(rest[i - 1] == table[i]);
                }
            }
        }
    }
}

/// Storing a value for a name that the table holds at index `i`, and not before.
proof fn lemma_upsert_found(
    table: Seq<(Seq<char>, Seq<char>)>,
    name: Seq<char>,
    value: Seq<char>,
    i: int,
)
    requires
        0 <= i < table.len(),
        table[i].0 == name,
        forall|j: int| 0 <= j < i ==> table[j].0 != name,
    ensures
        upsert(table, name, value) == table.update(i, (name, value)),
    decreases table.len(),
{
    if i == 0 {
        assert(seq![(name, value)] + table.drop_first() =~= table.update(0, (name, value)));
    } else {
        let rest = table.drop_first();
        assert(rest[i - 1] == table[i]);
        assert forall|j: int| 0 <= j < i - 1 implies rest[j].0 != name by {
            assert(rest[j] == table[j + 1]);
        }
        lemma_upsert_found(rest, name, value, i - 1);
        assert(seq![table[0]] + rest.update(i - 1, (name, value)) =~= table.update(
            i,
            (name, value),
        ));
    }
}

/// Storing a value for a name that the table does not hold.
proof fn lemma_upsert_absent(table: Seq<(Seq<char>, Seq<char>)>, name: Seq<char>, value: Seq<char>)
    requires
        forall|j: int| 0 <= j < table.len() ==> table[j].0 != name,
    ensures
        upsert(table, name, value) == table.push((name, value)),
    decreases table.len(),
{
    if table.len() == 0 {
        assert(seq![(name, value)] =~= table.push((name, value)));
    } else {
        let rest = table.drop_first();
        assert forall|j: int| 0 <= j < rest.len() implies rest[j].0 != name by {
            assert(rest[j] == table[j + 1]);
        }
        lemma_upsert_absent(rest, name, value);
        assert(seq![table[0]] + rest.push((name, value)) =~= table.push((name, value)));
    }
}

/// The values of the headers of `headers` that are named `name`, in order.
pub fn header_values(headers: &Vec<(String, String)>, name: &str) -> (values: Vec<String>)
    ensures
        texts(values@) == values_of(text_pairs(headers@), lowercase(name@)),
{
    let mut values: Vec<String> = Vec::new();
    let mut i: usize = 0;
    proof {
        reveal(Seq::filter);
        assert(text_pairs(headers@.subrange(0, 0)) =~= Seq::empty());
        assert(texts(values@) =~= values_of(Seq::empty(), lowercase(name@)));
    }
    while i < headers.len()
        invariant
            i <= headers.len(),
            texts(values@) == values_of(
                text_pairs(headers@.subrange(0, i as int)),
                lowercase(name@),
            ),
        decreases headers.len() - i,
    {
        proof {
            let seen = headers@.subrange(0, i as int);
            lemma_text_pairs_push(seen, headers@[i as int]);
            assert(headers@.subrange(0, i + 1) =~= seen.push(headers@[i as int]));
            lemma_values_push(
                text_pairs(seen),
                (headers@[i as int].0@, headers@[i as int].1@),
                lowercase(name@),
            );
            lemma_texts_push(values@, headers@[i as int].1);
        }
        if equals_ignoring_case(headers[i].0.as_str(), name) {
            values.push(headers[i].1.clone());
        }
        i += 1;
    }
    assert(headers@.subrange(0, i as int) =~= headers@);
    values
}

/// The value of the first header of `headers` that is named `name`.
pub fn first_header(headers: &Vec<(String, String)>, name: &str) -> (value: Option<String>)
    ensures
        text_of(value) == first_value(text_pairs(headers@), lowercase(name@)),
{
    let values = header_values(headers, name);
    if values.len() == 0 {
        None
    } else {
        Some(values[0].clone())
    }
}

/// The value of the last header of `headers` that is named `name`.
pub fn last_header(headers: &Vec<(String, String)>, name: &str) -> (value: Option<String>)
    ensures
        text_of(value) == last_value(text_pairs(headers@), lowercase(name@)),
{
    let values = header_values(headers, name);
    if values.len() == 0 {
        None
    } else {
        Some(values[values.len() - 1].clone())
    }
}

/// Stores `value` for `name` in `table`: in place of the value that the
/// first entry of that name holds, or as a new last entry.
pub fn store_header(table: &mut Vec<(String, String)>, name: String, value: String)
    ensures
        text_pairs(final(table)@) == upsert(text_pairs(old(table)@), name@, value@),
{
    let mut i: usize = 0;
    while i < table.len()
        invariant
            i <= table.len(),
            table@ == old(table)@,
            forall|j: int| 0 <= j < i ==> text_pairs(table@)[j].0 != name@,
        decreases table.len() - i,
    {
        if table[i].0 == name {
            proof {
                lemma_upsert_found(text_pairs(table@), name@, value@, i as int);
            }
            table[i] = (name, value);
            assert(text_pairs(table@) =~= text_pairs(old(table)@).update(
                i as int,
                (name@, value@),
            ));
            return ;
        }
        i += 1;
    }
    proof {
        lemma_upsert_absent(text_pairs(table@), name@, value@);
        lemma_text_pairs_push(table@, (name, value));
    }
    table.push((name, value));
}

/// The single-valued table of the headers of a response: see [`collapsed`].
pub fn collapse_headers(headers: &Vec<(String, String)>) -> (table: Vec<(String, String)>)
    ensures
        text_pairs(table@) == collapsed(text_pairs(headers@)),
{
    let mut table: Vec<(String, String)> = Vec::new();
    let mut i: usize = 0;
    proof {
        assert(text_pairs(headers@.subrange(0, 0)) =~= Seq::empty());
        assert(text_pairs(table@) =~= Seq::empty());
    }
    while i < headers.len()
        invariant
            i <= headers.len(),
            text_pairs(table@) == collapsed(text_pairs(headers@.subrange(0, i as int))),
        decreases headers.len() - i,
    {
        proof {
            let seen = headers@.subrange(0, i as int);
            lemma_text_pairs_push(seen, headers@[i as int]);
            assert(headers@.subrange(0, i + 1) =~= seen.push(headers@[i as int]));
            assert(text_pairs(seen).push((headers@[i as int].0@, headers@[i as int].1@)).drop_last()
                =~= text_pairs(seen));
            lemma_header_names();
        }
        if !equals_ignoring_case(headers[i].0.as_str(), "set-cookie") {
            let name = to_lowercase(headers[i].0.as_str());
            store_header(&mut table, name, headers[i].1.clone());
        }
        i += 1;
    }
    assert(headers@.subrange(0, i as int) =~= headers@);
    table
}

/// The three header names, as string literals.
pub proof fn lemma_header_names()
    ensures
        "set-cookie"@ == set_cookie_name(),
        lowercase("set-cookie"@) == set_cookie_name(),
        "location"@ == location_name(),
        lowercase("location"@) == location_name(),
        "content-encoding"@ == content_encoding_name(),
        lowercase("content-encoding"@) == content_encoding_name(),
{
    reveal_strlit("set-cookie");
    reveal_strlit("location");
    reveal_strlit("content-encoding");
    assert("set-cookie"@ =~= set_cookie_name());
    assert(lowercase(set_cookie_name()) =~= set_cookie_name());
    assert("location"@ =~= location_name());
    assert(lowercase(location_name()) =~= location_name());
    assert("content-encoding"@ =~= content_encoding_name());
    assert(lowercase(content_encoding_name()) =~= content_encoding_name());
}

/// The table of a response's headers is single-valued, holds no `set-cookie`
/// entry, and holds for every other lower case name the value of the last
/// header of that name.
pub proof fn lemma_collapsed(headers: Seq<(Seq<char>, Seq<char>)>, name: Seq<char>)
    ensures
        distinct_names(collapsed(headers)),
        lookup(collapsed(headers), name) == if name == set_cookie_name() {
            None
        } else {
            last_value(headers, name)
        },
    decreases headers.len(),
{
    if headers.len() == 0 {
        reveal(Seq::filter);
    } else {
        let rest = headers.drop_last();
        let header = headers.last();
        lemma_collapsed(rest, name);
        lemma_values_push(rest, header, name);
        assert(rest.push(header) =~= headers);
        if !is_named(header, set_cookie_name()) {
            lemma_upsert(collapsed(rest), lowercase(header.0), header.1, name);
        }
    }
}

} // verus!
