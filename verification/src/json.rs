//! JSON values as the transcript readers see them.

use vstd::prelude::*;

use crate::text;
use crate::text::precedes;

verus! {

/// A `serde_json::Number`. The readers only ask whether it is a count.
#[verifier::external_type_specification]
#[verifier::external_body]
pub struct ExNumber(serde_json::Number);

/// A JSON value.
#[derive(Debug, PartialEq)]
pub enum JsonValue {
    Null,
    Bool(bool),
    Number(serde_json::Number),
    String(String),
    Array(Vec<JsonValue>),
    Object(JsonObject),
}

/// The members of a JSON object, in the order of their names, no name twice.
#[derive(Debug, PartialEq)]
pub struct JsonObject {
    members: Vec<(String, JsonValue)>,
}

/// What a [`JsonValue`] stands for.
pub enum Json {
    Null,
    Bool(bool),
    /// An integer from zero up that fits 64 bits.
    Count(u64),
    /// Any other number.
    OtherNumber(serde_json::Number),
    Str(Seq<char>),
    Array(Seq<Json>),
    Object(Map<Seq<char>, Json>),
}

/// The number as a `u64`, where it is an integer from zero up that fits one.
pub uninterp spec fn number_as_u64(number: serde_json::Number) -> Option<u64>;

/// `serde_json::Number::as_u64`: what it gives depends on the number alone.
pub assume_specification[ serde_json::Number::as_u64 ](number: &serde_json::Number) -> (r: Option<
    u64,
>)
    ensures
        r == number_as_u64(*number),
;

/// What a number stands for.
pub open spec fn number_view(number: serde_json::Number) -> Json {
    match number_as_u64(number) {
        Some(n) => Json::Count(n),
        None => Json::OtherNumber(number),
    }
}

/// What the first members of an object stand for.
pub closed spec fn members_view(members: Seq<(String, JsonValue)>) -> Map<Seq<char>, Json>
    decreases members,
{
    if members.len() == 0 {
        Map::empty()
    } else {
        members_view(members.drop_last()).insert(members.last().0@, members.last().1@)
    }
}

/// What the items of an array stand for.
pub open spec fn items_view(items: Seq<JsonValue>) -> Seq<Json>
    decreases items,
{
    Seq::new(items.len(), |i: int| if 0 <= i < items.len() { items[i]@ } else { Json::Null })
}

impl View for JsonObject {
    type V = Map<Seq<char>, Json>;

    closed spec fn view(&self) -> Map<Seq<char>, Json>
        decreases self,
    {
        members_view(self.members@)
    }
}

impl View for JsonValue {
    type V = Json;

    open spec fn view(&self) -> Json
        decreases self,
    {
        match *self {
            JsonValue::Null => Json::Null,
            JsonValue::Bool(b) => Json::Bool(b),
            JsonValue::Number(n) => number_view(n),
            JsonValue::String(s) => Json::Str(s@),
            JsonValue::Array(items) => Json::Array(items_view(items@)),
            JsonValue::Object(object) => Json::Object(object@),
        }
    }
}

/// Whether no two members have the same name.
spec fn distinct(members: Seq<(String, JsonValue)>) -> bool {
    forall|i: int, j: int|
        0 <= i < j < members.len() ==> (#[trigger] members[i]).0@ != (#[trigger] members[j]).0@
}

/// Whether the members come in the order of their names.
spec fn ordered(members: Seq<(String, JsonValue)>) -> bool {
    forall|i: int, j: int|
        0 <= i < j < members.len() ==> precedes(
            (#[trigger] members[i]).0@,
            (#[trigger] members[j]).0@,
        )
}

/// Members in the order of their names repeat none.
proof fn lemma_ordered(members: Seq<(String, JsonValue)>)
    requires
        ordered(members),
    ensures
        distinct(members),
{
    assert forall|i: int, j: int| 0 <= i < j < members.len() implies (#[trigger] members[i]).0@ != (
    #[trigger] members[j]).0@ by {
        text::lemma_order_is_total(members[i].0@, members[j].0@);
    }
}

/// Members without a repeated name stand for exactly the map from their names to their values.
proof fn lemma_members(members: Seq<(String, JsonValue)>)
    requires
        distinct(members),
    ensures
        members_view(members).dom().finite(),
        members_view(members).len() == members.len(),
        forall|i: int|
            0 <= i < members.len() ==> members_view(members).dom().contains(
                (#[trigger] members[i]).0@,
            ) && members_view(members)[members[i].0@] == members[i].1@,
        forall|name: Seq<char>| #[trigger]
            members_view(members).dom().contains(name) ==> exists|i: int|
                0 <= i < members.len() && (#[trigger] members[i]).0@ == name,
    decreases members.len(),
{
    if members.len() > 0 {
        let rest = members.drop_last();
        assert forall|i: int, j: int| 0 <= i < j < rest.len() implies (#[trigger] rest[i]).0@ != (
        #[trigger] rest[j]).0@ by {
            assert(members[i].0@ != members[j].0@);
        }
        lemma_members(rest);
        let name = members.last().0@;
        assert(members_view(members) == members_view(rest).insert(name, members.last().1@));
        assert(!members_view(rest).dom().contains(name)) by {
            if members_view(rest).dom().contains(name) {
                let i = choose|i: int| 0 <= i < rest.len() && (#[trigger] rest[i]).0@ == name;
                assert(members[i].0@ != members[members.len() - 1].0@);
            }
        }
        assert forall|i: int| 0 <= i < members.len() implies members_view(members).dom().contains(
            (#[trigger] members[i]).0@,
        ) && members_view(members)[members[i].0@] == members[i].1@ by {
            if i < rest.len() {
                assert(rest[i] == members[i]);
                assert(members[i].0@ != members[members.len() - 1].0@);
                assert(members_view(rest)[rest[i].0@] == rest[i].1@);
            } else {
                assert(members[i] == members.last());
            }
        }
        assert forall|other: Seq<char>| #[trigger]
            members_view(members).dom().contains(other) implies exists|i: int|
            0 <= i < members.len() && (#[trigger] members[i]).0@ == other by {
            if other != name {
                let i = choose|i: int| 0 <= i < rest.len() && (#[trigger] rest[i]).0@ == other;
                assert(members[i].0@ == other);
            } else {
                assert(members[members.len() - 1].0@ == other);
            }
        }
    }
}

/// The text of a string, of any other value none.
pub open spec fn string_of(value: Json) -> Option<Seq<char>> {
    match value {
        Json::Str(s) => Some(s),
        _ => None,
    }
}

/// The truth value of a boolean, of any other value none.
pub open spec fn bool_of(value: Json) -> Option<bool> {
    match value {
        Json::Bool(b) => Some(b),
        _ => None,
    }
}

/// The number of a non-negative integer, of any other value none.
pub open spec fn u64_of(value: Json) -> Option<u64> {
    match value {
        Json::Count(n) => Some(n),
        _ => None,
    }
}

/// The member `name` of an object: none where there is no such member, or no object.
pub open spec fn member(value: Json, name: Seq<char>) -> Option<Json> {
    match value {
        Json::Object(members) => if members.dom().contains(name) {
            Some(members[name])
        } else {
            None
        },
        _ => None,
    }
}

/// The member `name` of an object: null where there is no such member, or no object.
pub open spec fn at(value: Json, name: Seq<char>) -> Json {
    match member(value, name) {
        Some(found) => found,
        None => Json::Null,
    }
}

/// The text of the member `name`, or the empty text where it is no string.
pub open spec fn text_at(value: Json, name: Seq<char>) -> Seq<char> {
    match string_of(at(value, name)) {
        Some(s) => s,
        None => Seq::empty(),
    }
}

/// Members with one more, in its place, stay in order and stand for the map with it set.
proof fn lemma_placed(
    before: Seq<(String, JsonValue)>,
    there: bool,
    kept: Seq<(String, JsonValue)>,
    members: Seq<(String, JsonValue)>,
    at: int,
)
    requires
        ordered(before),
        0 <= at <= before.len(),
        there ==> at < before.len() && before[at].0@ == members[at].0@,
        kept == (if there {
            before.remove(at)
        } else {
            before
        }),
        members.len() == kept.len() + 1,
        members == kept.insert(at, members[at]),
        forall|i: int| 0 <= i < at ==> precedes((#[trigger] before[i]).0@, members[at].0@),
        forall|i: int|
            at < i < before.len() ==> precedes(members[at].0@, (#[trigger] before[i]).0@),
        !there && at < before.len() ==> precedes(members[at].0@, before[at].0@),
    ensures
        ordered(members),
        members_view(members) == members_view(before).insert(members[at].0@, members[at].1@),
{
    let name = members[at].0@;
    // Where member `i` stood before.
    let from = |i: int| if i > at && !there { i - 1 } else { i };
    assert forall|i: int| 0 <= i < members.len() && i != at implies #[trigger] members[i]
        == before[from(i)] by {}
    assert forall|i: int, j: int| 0 <= i < j < members.len() implies precedes(
        (#[trigger] members[i]).0@,
        (#[trigger] members[j]).0@,
    ) by {
        if i != at && j != at {
            assert(members[i] == before[from(i)] && members[j] == before[from(j)]);
        } else if j == at {
            assert(members[i] == before[from(i)]);
        } else {
            assert(members[j] == before[from(j)]);
        }
    }
    lemma_ordered(before);
    lemma_ordered(members);
    lemma_members(before);
    lemma_members(members);
    let was = members_view(before);
    let now = members_view(members);
    assert forall|other: Seq<char>| other != name implies (#[trigger] now.dom().contains(other)
        <==> was.dom().contains(other)) && (was.dom().contains(other) ==> now[other]
        == was[other]) by {
        if was.dom().contains(other) {
            let j = choose|j: int| 0 <= j < before.len() && (#[trigger] before[j]).0@ == other;
            let i = if j >= at && !there { j + 1 } else { j };
            assert(members[i] == before[j]);
        }
        if now.dom().contains(other) {
            let i = choose|i: int| 0 <= i < members.len() && (#[trigger] members[i]).0@ == other;
            assert(members[i] == before[from(i)]);
        }
    }
    assert(now.dom().contains(members[at].0@));
    assert(now =~= was.insert(name, members[at].1@));
}

impl JsonObject {
    #[verifier::type_invariant]
    closed spec fn names_are_ordered(self) -> bool {
        ordered(self.members@)
    }

    /// The object without members.
    pub fn new() -> (r: JsonObject)
        ensures
            r@ == Map::<Seq<char>, Json>::empty(),
    {
        JsonObject { members: Vec::new() }
    }

    /// The object with the member `name` set to `value`.
    pub fn with(self, name: String, value: JsonValue) -> (r: JsonObject)
        ensures
            r@ == self@.insert(name@, value@),
    {
        proof {
            use_type_invariant(&self);
        }
        let ghost before = self.members@;
        let at = self.place(name.as_str());
        let mut members = self.members;
        let there = at < members.len() && text::same(members[at].0.as_str(), name.as_str());
        if there {
            members.remove(at);
        }
        let ghost kept = members@;
        members.insert(at, (name, value));
        proof {
            lemma_placed(before, there, kept, members@, at as int);
        }
        JsonObject { members }
    }

    /// Where the member `name` stands, or would stand.
    fn place(&self, name: &str) -> (r: usize)
        ensures
            r <= self.members@.len(),
            forall|i: int| 0 <= i < r ==> precedes((#[trigger] self.members@[i]).0@, name@),
            forall|i: int|
                r < i < self.members@.len() ==> precedes(name@, (#[trigger] self.members@[i]).0@),
            r < self.members@.len() ==> name@ == self.members@[r as int].0@ || precedes(
                name@,
                self.members@[r as int].0@,
            ),
    {
        proof {
            use_type_invariant(self);
        }
        let mut i: usize = 0;
        while i < self.members.len() && text::comes_before(self.members[i].0.as_str(), name)
            invariant
                i <= self.members@.len(),
                forall|j: int| 0 <= j < i ==> precedes((#[trigger] self.members@[j]).0@, name@),
            decreases self.members.len() - i,
        {
            i += 1;
        }
        proof {
            if i < self.members@.len() {
                let here = self.members@[i as int].0@;
                text::lemma_order_is_total(here, name@);
                assert forall|j: int| i < j < self.members@.len() implies precedes(
                    name@,
                    (#[trigger] self.members@[j]).0@,
                ) by {
                    assert(precedes(here, self.members@[j].0@));
                    if here != name@ {
                        text::lemma_order_is_transitive(name@, here, self.members@[j].0@);
                    }
                }
            }
        }
        i
    }

    /// How many members the object has.
    pub closed spec fn size(&self) -> nat {
        self.members@.len()
    }

    /// The object of the first `n` members, in the order of their names.
    pub closed spec fn first(&self, n: int) -> Map<Seq<char>, Json> {
        members_view(self.members@.take(n))
    }

    /// How many members the object has.
    pub fn len(&self) -> (r: usize)
        ensures
            r == self.size(),
            self.first(0) == Map::<Seq<char>, Json>::empty(),
            self.first(r as int) == self@,
    {
        proof {
            assert(self.members@.take(self.members@.len() as int) =~= self.members@);
        }
        self.members.len()
    }

    /// The member number `i`, with its name.
    pub fn nth(&self, i: usize) -> (r: (&String, &JsonValue))
        requires
            i < self.size(),
        ensures
            self.first(i + 1) == self.first(i as int).insert(r.0@, r.1@),
            decreases_to!(*self => *r.1),
    {
        proof {
            assert(self.members@.take(i + 1).drop_last() =~= self.members@.take(i as int));
            assert(decreases_to!(*self => self.members));
            assert(decreases_to!(self.members => self.members@));
            assert(decreases_to!(self.members@ => self.members@[i as int]));
            assert(decreases_to!(self.members@[i as int] => self.members@[i as int].1));
        }
        (&self.members[i].0, &self.members[i].1)
    }

    /// The member `name`.
    pub fn get(&self, name: &str) -> (r: Option<&JsonValue>)
        ensures
            r is Some == self@.dom().contains(name@),
            r matches Some(value) ==> value@ == self@[name@],
    {
        proof {
            use_type_invariant(self);
            lemma_ordered(self.members@);
            lemma_members(self.members@);
        }
        let at = self.place(name);
        if at < self.members.len() && text::same(self.members[at].0.as_str(), name) {
            Some(&self.members[at].1)
        } else {
            proof {
                if self@.dom().contains(name@) {
                    let i = choose|i: int|
                        0 <= i < self.members@.len() && (#[trigger] self.members@[i]).0@ == name@;
                    text::lemma_order_is_total(name@, name@);
                }
            }
            None
        }
    }
}

impl JsonValue {
    /// The text of a string.
    pub fn as_str(&self) -> (r: Option<&str>)
        ensures
            r is Some == string_of(self@) is Some,
            r matches Some(s) ==> Some(s@) == string_of(self@),
    {
        match self {
            JsonValue::String(s) => Some(s.as_str()),
            _ => None,
        }
    }

    /// The truth value of a boolean.
    pub fn as_bool(&self) -> (r: Option<bool>)
        ensures
            r == bool_of(self@),
    {
        match self {
            JsonValue::Bool(b) => Some(*b),
            _ => None,
        }
    }

    /// The number of a non-negative integer.
    pub fn as_u64(&self) -> (r: Option<u64>)
        ensures
            r == u64_of(self@),
    {
        match self {
            JsonValue::Number(n) => n.as_u64(),
            _ => None,
        }
    }

    /// Whether the value is null.
    pub fn is_null(&self) -> (r: bool)
        ensures
            r == (self@ is Null),
    {
        match self {
            JsonValue::Null => true,
            _ => false,
        }
    }

    /// Whether the value is an object.
    pub fn is_object(&self) -> (r: bool)
        ensures
            r == (self@ is Object),
    {
        match self {
            JsonValue::Object(_) => true,
            _ => false,
        }
    }

    /// The member `name` of an object.
    pub fn get(&self, name: &str) -> (r: Option<&JsonValue>)
        ensures
            r is Some == member(self@, name@) is Some,
            r matches Some(value) ==> Some(value@) == member(self@, name@),
    {
        match self {
            JsonValue::Object(members) => members.get(name),
            _ => None,
        }
    }

    /// The member `name` of an object, or null.
    pub fn at(&self, name: &str) -> (r: &JsonValue)
        ensures
            r@ == at(self@, name@),
    {
        match self.get(name) {
            Some(value) => value,
            None => &JsonValue::Null,
        }
    }

    /// The text of the member `name`, or the empty text.
    pub fn text_at(&self, name: &str) -> (r: String)
        ensures
            r@ == text_at(self@, name@),
    {
        match self.at(name).as_str() {
            Some(s) => s.to_owned(),
            None => String::new(),
        }
    }
}

/// The sum of the non-negative integers among the members of an object.
pub open spec fn count_sum(members: Map<Seq<char>, Json>) -> nat
    decreases members.dom().len(),
    when members.dom().finite()
{
    if members.dom().len() == 0 {
        0
    } else {
        let name = members.dom().choose();
        count_of(members[name]) + count_sum(members.remove(name))
    }
}

/// The number of a non-negative integer, and zero for any other value.
pub open spec fn count_of(value: Json) -> nat {
    match u64_of(value) {
        Some(n) => n as nat,
        None => 0,
    }
}

/// Whether a non-negative integer is among the members of an object.
pub open spec fn has_count(members: Map<Seq<char>, Json>) -> bool {
    exists|name: Seq<char>| #[trigger] members.dom().contains(name) && u64_of(members[name]) is Some
}

/// The sum does not depend on the order in which members are added up: any of them may be taken
/// out and added to the sum of the others.
pub proof fn law_sum_in_any_order(members: Map<Seq<char>, Json>, name: Seq<char>)
    requires
        members.dom().finite(),
        members.dom().contains(name),
    ensures
        count_sum(members) == count_of(members[name]) + count_sum(members.remove(name)),
    decreases members.dom().len(),
{
    let first = members.dom().choose();
    assert(members.dom().contains(first));
    if first != name {
        law_sum_in_any_order(members.remove(first), name);
        law_sum_in_any_order(members.remove(name), first);
        assert(members.remove(first).remove(name) =~= members.remove(name).remove(first));
    }
}

impl JsonObject {
    /// The sum of the non-negative integers among the members, none where there are none.
    pub fn count_total(&self) -> (r: Option<u64>)
        requires
            count_sum(self@) <= u64::MAX,
        ensures
            r is Some == has_count(self@),
            r matches Some(total) ==> total == count_sum(self@),
    {
        let mut total: Option<u64> = None;
        let mut i: usize = 0;
        proof {
            use_type_invariant(self);
            lemma_ordered(self.members@);
            lemma_members(self.members@);
            lemma_prefix_sums(self.members@, 0);
        }
        while i < self.members.len()
            invariant
                i <= self.members@.len(),
                distinct(self.members@),
                count_sum(members_view(self.members@)) <= u64::MAX,
                total is Some <==> exists|j: int|
                    0 <= j < i && u64_of((#[trigger] self.members@[j]).1@) is Some,
                (match total {
                    Some(n) => n as nat,
                    None => 0,
                }) == count_sum(members_view(self.members@.take(i as int))),
            decreases self.members.len() - i,
        {
            proof {
                lemma_prefix_sums(self.members@, i as int);
                lemma_prefix_sums(self.members@, i + 1);
                assert(self.members@.take(i + 1).drop_last() =~= self.members@.take(i as int));
                lemma_step(self.members@, i as int);
            }
            if let Some(n) = self.members[i].1.as_u64() {
                total = match total {
                    Some(sum) => Some(sum + n),
                    None => Some(n),
                };
            }
            i += 1;
        }
        proof {
            assert(self.members@.take(i as int) =~= self.members@);
            lemma_members(self.members@);
            if total is Some {
                let j = choose|j: int|
                    0 <= j < self.members@.len() && u64_of((#[trigger] self.members@[j]).1@)
                        is Some;
                assert(self@.dom().contains(self.members@[j].0@));
            }
            if has_count(self@) {
                let name = choose|name: Seq<char>| #[trigger]
                    self@.dom().contains(name) && u64_of(self@[name]) is Some;
                let j = choose|j: int|
                    0 <= j < self.members@.len() && (#[trigger] self.members@[j]).0@ == name;
                assert(u64_of(self.members@[j].1@) is Some);
            }
        }
        total
    }

    /// Whether the sum of the non-negative integers among the members fits 64 bits.
    pub fn counts_fit(&self) -> (r: bool)
        ensures
            r == (count_sum(self@) <= u64::MAX),
    {
        let mut total: u64 = 0;
        let mut i: usize = 0;
        proof {
            use_type_invariant(self);
            lemma_ordered(self.members@);
            lemma_prefix_sums(self.members@, 0);
        }
        while i < self.members.len()
            invariant
                i <= self.members@.len(),
                distinct(self.members@),
                total == count_sum(members_view(self.members@.take(i as int))),
            decreases self.members.len() - i,
        {
            proof {
                lemma_prefix_sums(self.members@, i + 1);
                lemma_step(self.members@, i as int);
            }
            if let Some(n) = self.members[i].1.as_u64() {
                match total.checked_add(n) {
                    Some(sum) => {
                        total = sum;
                    },
                    None => {
                        return false;
                    },
                }
            }
            i += 1;
        }
        assert(self.members@.take(i as int) =~= self.members@);
        true
    }
}

/// A prefix of members without a repeated name adds up to no more than all of them.
proof fn lemma_prefix_sums(members: Seq<(String, JsonValue)>, n: int)
    requires
        distinct(members),
        0 <= n <= members.len(),
    ensures
        distinct(members.take(n)),
        count_sum(members_view(members.take(n))) <= count_sum(members_view(members)),
        n == 0 ==> count_sum(members_view(members.take(n))) == 0,
    decreases members.len() - n,
{
    let part = members.take(n);
    assert forall|i: int, j: int| 0 <= i < j < part.len() implies (#[trigger] part[i]).0@ != (
    #[trigger] part[j]).0@ by {
        assert(members[i].0@ != members[j].0@);
    }
    lemma_members(part);
    if n == members.len() {
        assert(part =~= members);
    } else {
        lemma_prefix_sums(members, n + 1);
        lemma_step(members, n);
    }
}

/// One more member adds its own number to the sum.
proof fn lemma_step(members: Seq<(String, JsonValue)>, n: int)
    requires
        distinct(members),
        0 <= n < members.len(),
    ensures
        count_sum(members_view(members.take(n + 1))) == count_sum(members_view(members.take(n)))
            + count_of(members[n].1@),
{
    let part = members.take(n);
    let more = members.take(n + 1);
    assert(more.drop_last() =~= part);
    assert forall|i: int, j: int| 0 <= i < j < more.len() implies (#[trigger] more[i]).0@ != (
    #[trigger] more[j]).0@ by {
        assert(members[i].0@ != members[j].0@);
    }
    assert forall|i: int, j: int| 0 <= i < j < part.len() implies (#[trigger] part[i]).0@ != (
    #[trigger] part[j]).0@ by {
        assert(members[i].0@ != members[j].0@);
    }
    lemma_members(part);
    lemma_members(more);
    let name = members[n].0@;
    assert(!members_view(part).dom().contains(name)) by {
        if members_view(part).dom().contains(name) {
            let i = choose|i: int| 0 <= i < part.len() && (#[trigger] part[i]).0@ == name;
            assert(members[i].0@ != members[n].0@);
        }
    }
    assert(members_view(more) == members_view(part).insert(name, members[n].1@));
    law_sum_in_any_order(members_view(more), name);
    assert(members_view(more).remove(name) =~= members_view(part));
}

/// `<serde_json::Number as Clone>::clone`: the copy is the number.
pub assume_specification[ <serde_json::Number as Clone>::clone ](
    number: &serde_json::Number,
) -> (r: serde_json::Number)
    ensures
        r == *number,
;

impl Clone for JsonValue {
    fn clone(&self) -> (r: Self)
        ensures
            r@ == self@,
        decreases self,
    {
        match self {
            JsonValue::Null => JsonValue::Null,
            JsonValue::Bool(b) => JsonValue::Bool(*b),
            JsonValue::Number(n) => JsonValue::Number(n.clone()),
            JsonValue::String(s) => JsonValue::String(s.clone()),
            JsonValue::Array(items) => {
                let mut copy: Vec<JsonValue> = Vec::new();
                let mut i: usize = 0;
                while i < items.len()
                    invariant
                        i <= items@.len(),
                        copy@.len() == i,
                        forall|j: int| 0 <= j < i ==> (#[trigger] copy@[j])@ == items@[j]@,
                        *self == JsonValue::Array(*items),
                    decreases items.len() - i,
                {
                    assert(decreases_to!(*self => (*self)->Array_0));
                    assert(decreases_to!(*items => items@));
                    assert(decreases_to!(items@ => items@[i as int]));
                    copy.push(items[i].clone());
                    i += 1;
                }
                assert(items_view(copy@) =~= items_view(items@));
                JsonValue::Array(copy)
            },
            JsonValue::Object(object) => JsonValue::Object(object.clone()),
        }
    }
}

impl Clone for JsonObject {
    fn clone(&self) -> (r: Self)
        ensures
            r@ == self@,
        decreases self,
    {
        let mut copy: Vec<(String, JsonValue)> = Vec::new();
        let mut i: usize = 0;
        proof {
            use_type_invariant(self);
        }
        while i < self.members.len()
            invariant
                i <= self.members@.len(),
                copy@.len() == i,
                ordered(self.members@),
                forall|j: int|
                    0 <= j < i ==> (#[trigger] copy@[j]).0@ == self.members@[j].0@ && copy@[j].1@
                        == self.members@[j].1@,
            decreases self.members.len() - i,
        {
            assert(decreases_to!(*self => self.members@[i as int].1));
            copy.push((self.members[i].0.clone(), self.members[i].1.clone()));
            i += 1;
        }
        proof {
            lemma_same_members(copy@, self.members@);
            assert forall|a: int, b: int| 0 <= a < b < copy@.len() implies precedes(
                (#[trigger] copy@[a]).0@,
                (#[trigger] copy@[b]).0@,
            ) by {
                assert(precedes(self.members@[a].0@, self.members@[b].0@));
            }
        }
        JsonObject { members: copy }
    }
}

/// Members with the same names and values stand for the same object.
proof fn lemma_same_members(a: Seq<(String, JsonValue)>, b: Seq<(String, JsonValue)>)
    requires
        a.len() == b.len(),
        forall|j: int|
            0 <= j < a.len() ==> (#[trigger] a[j]).0@ == b[j].0@ && a[j].1@ == b[j].1@,
    ensures
        members_view(a) == members_view(b),
    decreases a.len(),
{
    if a.len() > 0 {
        assert forall|j: int| 0 <= j < a.drop_last().len() implies (
        #[trigger] a.drop_last()[j]).0@ == b.drop_last()[j].0@ && a.drop_last()[j].1@
            == b.drop_last()[j].1@ by {
            assert(a[j].0@ == b[j].0@);
        }
        lemma_same_members(a.drop_last(), b.drop_last());
        assert(a[a.len() - 1].0@ == b[b.len() - 1].0@);
    }
}

/// A member is read as it was set, whatever else the object holds; a member that is not there is
/// null, and so is any member of a value that is no object.
pub proof fn law_members_are_read_back(
    members: Map<Seq<char>, Json>,
    name: Seq<char>,
    other: Seq<char>,
    value: Json,
)
    ensures
        at(Json::Object(members.insert(name, value)), name) == value,
        member(Json::Object(members.insert(name, value)), name) == Some(value),
        other != name ==> at(Json::Object(members.insert(name, value)), other) == at(
            Json::Object(members),
            other,
        ),
        at(Json::Object(members.remove(name)), name) == Json::Null,
        member(Json::Object(members.remove(name)), name) is None,
        !(value is Object) ==> at(value, name) == Json::Null && member(value, name) is None,
{
}

/// Texts, truth values and counts are read as what they are, and as nothing else.
pub proof fn law_values_are_read(value: Json, name: Seq<char>, text: Seq<char>, n: u64, b: bool)
    ensures
        string_of(value) == Some(text) <==> value == Json::Str(text),
        bool_of(value) == Some(b) <==> value == Json::Bool(b),
        u64_of(value) == Some(n) <==> value == Json::Count(n),
        at(value, name) == Json::Str(text) ==> text_at(value, name) == text,
        !(at(value, name) is Str) ==> text_at(value, name).len() == 0,
        count_of(Json::Count(n)) == n,
        !(value is Count) ==> count_of(value) == 0,
{
}

/// The sum of an object without members is zero, and one member more adds its count, where it is
/// one.
pub proof fn law_one_count_more(members: Map<Seq<char>, Json>, name: Seq<char>, value: Json)
    requires
        members.dom().finite(),
        !members.dom().contains(name),
    ensures
        count_sum(Map::<Seq<char>, Json>::empty()) == 0,
        count_sum(members.insert(name, value)) == count_sum(members) + match value {
            Json::Count(n) => n as nat,
            _ => 0,
        },
{
    law_sum_in_any_order(members.insert(name, value), name);
    assert(members.insert(name, value).remove(name) =~= members);
}

} // verus!
