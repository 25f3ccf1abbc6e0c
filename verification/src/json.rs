//! JSON objects as texts: fields with their keys and values, in their order.

use vstd::prelude::*;

use crate::text::comma_joined;

verus! {

/// A field with a text for its value.
pub open spec fn text_field(key: Seq<char>, value: Seq<char>) -> Seq<char> {
    "\""@ + key + "\":\""@ + value + "\""@
}

/// A field with a number, an object or a list for its value.
pub open spec fn raw_field(key: Seq<char>, value: Seq<char>) -> Seq<char> {
    "\""@ + key + "\":"@ + value
}

/// An object with some fields.
pub open spec fn object(fields: Seq<Seq<char>>) -> Seq<char> {
    "{"@ + comma_joined(fields) + "}"@
}

/// A list of some values.
pub open spec fn list(items: Seq<Seq<char>>) -> Seq<char> {
    "["@ + comma_joined(items) + "]"@
}

/// One more text is joined with a comma.
pub proof fn law_joined_with_commas(items: Seq<Seq<char>>, item: Seq<char>)
    ensures
        comma_joined(Seq::empty()) == Seq::<char>::empty(),
        comma_joined(seq![item]) == item,
        items.len() > 0 ==> comma_joined(items.push(item)) == comma_joined(items) + ","@ + item,
{
    assert(items.push(item).drop_last() =~= items);
}

/// The first texts of a row are joined as those before the last of them, and the last.
proof fn lemma_join_step(fields: Seq<Seq<char>>, n: int)
    requires
        1 <= n < fields.len(),
    ensures
        comma_joined(fields.take(n + 1)) == comma_joined(fields.take(n)) + ","@ + fields[n],
{
    law_joined_with_commas(fields.take(n), fields[n]);
    assert(fields.take(n).push(fields[n]) =~= fields.take(n + 1));
}

/// A few fields are joined with a comma between each two.
pub proof fn lemma_few_fields(fields: Seq<Seq<char>>)
    requires
        1 <= fields.len() <= 8,
    ensures
        fields.len() == 1 ==> comma_joined(fields) == fields[0],
        fields.len() == 2 ==> comma_joined(fields) == fields[0] + ","@ + fields[1],
        fields.len() == 3 ==> comma_joined(fields) == fields[0] + ","@ + fields[1] + ","@ + fields[2],
        fields.len() == 4 ==> comma_joined(fields) == fields[0] + ","@ + fields[1] + ","@ + fields[2] + ","@ + fields[3],
        fields.len() == 5 ==> comma_joined(fields) == fields[0] + ","@ + fields[1] + ","@ + fields[2] + ","@ + fields[3] + ","@ + fields[4],
        fields.len() == 6 ==> comma_joined(fields) == fields[0] + ","@ + fields[1] + ","@ + fields[2] + ","@ + fields[3] + ","@ + fields[4] + ","@ + fields[5],
        fields.len() == 7 ==> comma_joined(fields) == fields[0] + ","@ + fields[1] + ","@ + fields[2] + ","@ + fields[3] + ","@ + fields[4] + ","@ + fields[5] + ","@ + fields[6],
        fields.len() == 8 ==> comma_joined(fields) == fields[0] + ","@ + fields[1] + ","@ + fields[2] + ","@ + fields[3] + ","@ + fields[4] + ","@ + fields[5] + ","@ + fields[6] + ","@ + fields[7],
{
    assert(fields.take(1) =~= seq![fields[0]]);
    law_joined_with_commas(Seq::empty(), fields[0]);
    assert(fields.take(fields.len() as int) =~= fields);
    if fields.len() > 1 {
        lemma_join_step(fields, 1);
    }
    if fields.len() > 2 {
        lemma_join_step(fields, 2);
    }
    if fields.len() > 3 {
        lemma_join_step(fields, 3);
    }
    if fields.len() > 4 {
        lemma_join_step(fields, 4);
    }
    if fields.len() > 5 {
        lemma_join_step(fields, 5);
    }
    if fields.len() > 6 {
        lemma_join_step(fields, 6);
    }
    if fields.len() > 7 {
        lemma_join_step(fields, 7);
    }
}

} // verus!
