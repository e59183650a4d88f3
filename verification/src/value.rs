//! Structured values: what the pages of a project are told about it.

use vstd::prelude::*;
use crate::slug_map::{lemma_named_at, named_at, put};

verus! {

/// A day and a time of day, without a time zone.
#[derive(Debug, Clone, Copy, PartialEq, Eq, Structural)]
pub struct Datetime {
    pub year: i32,
    pub month: u8,
    pub day: u8,
    pub hour: u8,
    pub minute: u8,
    pub second: u8,
    pub nanosecond: u32,
}

/// Whether `year` is a leap year of the Gregorian calendar.
pub open spec fn is_leap_year(year: int) -> bool {
    year % 4 == 0 && (year % 100 != 0 || year % 400 == 0)
}

/// The number of days of the month `month` of the year `year`.
pub open spec fn days_in_month(year: int, month: int) -> int {
    if month == 2 {
        if is_leap_year(year) {
            29
        } else {
            28
        }
    } else if month == 4 || month == 6 || month == 9 || month == 11 {
        30
    } else {
        31
    }
}

impl Datetime {
    /// Whether the parts name a day of the calendar and a time of that day.
    pub open spec fn wf(self) -> bool {
        &&& -9999 <= self.year <= 9999
        &&& 1 <= self.month <= 12
        &&& 1 <= self.day <= days_in_month(self.year as int, self.month as int)
        &&& self.hour < 24
        &&& self.minute < 60
        &&& self.second < 60
        &&& self.nanosecond < 1_000_000_000
    }

    /// The day and time of the given parts, where they name one.
    pub fn new(
        year: i32,
        month: u8,
        day: u8,
        hour: u8,
        minute: u8,
        second: u8,
        nanosecond: u32,
    ) -> (made: Option<Datetime>)
        ensures
            match made {
                Some(at) => at.wf() && at == (Datetime {
                    year,
                    month,
                    day,
                    hour,
                    minute,
                    second,
                    nanosecond,
                }),
                None => !(Datetime { year, month, day, hour, minute, second, nanosecond }).wf(),
            },
    {
        if year < -9999 || year > 9999 || month < 1 || month > 12 || day < 1 || hour >= 24
            || minute >= 60 || second >= 60 || nanosecond >= 1_000_000_000 {
            return None;
        }
        let leap = year % 4 == 0 && (year % 100 != 0 || year % 400 == 0);
        let days: u8 = if month == 2 {
            if leap {
                29
            } else {
                28
            }
        } else if month == 4 || month == 6 || month == 9 || month == 11 {
            30
        } else {
            31
        };
        if day > days {
            return None;
        }
        Some(Datetime { year, month, day, hour, minute, second, nanosecond })
    }
}

/// A structured value.
#[derive(Debug, PartialEq, Eq)]
pub enum Value {
    /// A text.
    Str(String),
    /// Values in a row.
    Array(Vec<Value>),
    /// Values under names.
    Dict(Dict),
    /// A day and a time of day.
    Datetime(Datetime),
}

/// Values under names, in the order in which the names first came.
#[derive(Debug, PartialEq, Eq)]
pub struct Dict {
    entries: Vec<(String, Value)>,
}

/// A structured value, as plain values.
pub enum ValueView {
    Str(Seq<char>),
    Array(Seq<ValueView>),
    Dict(Seq<(Seq<char>, ValueView)>),
    Datetime(Datetime),
}

/// The values of `items` as plain values, in order.
pub open spec fn array_view(items: Seq<Value>) -> Seq<ValueView>
    decreases items,
{
    Seq::new(
        items.len(),
        |k: int|
            if 0 <= k < items.len() {
                value_view(items[k])
            } else {
                ValueView::Array(Seq::empty())
            },
    )
}

/// A value as plain values.
pub open spec fn value_view(value: Value) -> ValueView
    decreases value,
{
    match value {
        Value::Str(text) => ValueView::Str(text@),
        Value::Array(items) => ValueView::Array(array_view(items@)),
        Value::Dict(dict) => ValueView::Dict(dict@),
        Value::Datetime(at) => ValueView::Datetime(at),
    }
}

impl View for Value {
    type V = ValueView;

    open spec fn view(&self) -> ValueView {
        value_view(*self)
    }
}

impl View for Dict {
    type V = Seq<(Seq<char>, ValueView)>;

    closed spec fn view(&self) -> Seq<(Seq<char>, ValueView)>
        decreases self,
    {
        Seq::new(
            self.entries@.len(),
            |k: int|
                if 0 <= k < self.entries@.len() {
                    (self.entries@[k].0@, value_view(self.entries@[k].1))
                } else {
                    (Seq::empty(), ValueView::Array(Seq::empty()))
                },
        )
    }
}

/// What can be told to a page as a structured value.
pub trait IntoValue {
    /// The value, as plain values.
    spec fn value(&self) -> ValueView;

    /// The value.
    fn into_value(&self) -> (made: Value)
        ensures
            made@ == self.value(),
    ;
}

impl Value {
    /// The text `text` as a value.
    pub fn text(text: &str) -> (made: Value)
        ensures
            made@ == ValueView::Str(text@),
    {
        Value::Str(text.to_owned())
    }
}

impl Clone for Value {
    fn clone(&self) -> (copy: Self)
        ensures
            copy@ == self@,
        decreases self,
    {
        match self {
            Value::Str(text) => Value::Str(text.clone()),
            Value::Array(items) => {
                let mut copies: Vec<Value> = Vec::new();
                let mut k: usize = 0;
                while k < items.len()
                    invariant
                        self is Array,
                        self->Array_0 == *items,
                        k <= items.len(),
                        copies@.len() == k,
                        forall|m: int| 0 <= m < k ==> (#[trigger] copies@[m])@ == items@[m]@,
                    decreases items.len() - k,
                {
                    proof {
                        broadcast use vstd::std_specs::vec::group_vec_axioms;

                        assert(decreases_to!(*self => self->Array_0));
                        assert(decreases_to!(self->Array_0 => (self->Array_0)@[k as int]));
                    }
                    copies.push(items[k].clone());
                    k += 1;
                }
                let copy = Value::Array(copies);
                proof {
                    let made = array_view(copies@);
                    let held = array_view(items@);
                    assert forall|m: int| 0 <= m < made.len() implies made[m] == held[m] by {
                        assert(copies@[m]@ == items@[m]@);
                    }
                    assert(made =~= held);
                }
                copy
            },
            Value::Dict(dict) => Value::Dict(dict.clone()),
            Value::Datetime(at) => Value::Datetime(*at),
        }
    }
}

impl Clone for Dict {
    fn clone(&self) -> (copy: Self)
        ensures
            copy@ == self@,
        decreases self,
    {
        let mut entries: Vec<(String, Value)> = Vec::new();
        let mut k: usize = 0;
        while k < self.entries.len()
            invariant
                k <= self.entries.len(),
                entries@.len() == k,
                forall|m: int|
                    0 <= m < k ==> {
                        &&& (#[trigger] entries@[m]).0@ == self.entries@[m].0@
                        &&& entries@[m].1@ == self.entries@[m].1@
                    },
            decreases self.entries.len() - k,
        {
            proof {
                broadcast use vstd::std_specs::vec::group_vec_axioms;

                assert(decreases_to!(*self => self.entries));
                assert(decreases_to!(self.entries => self.entries@[k as int]));
                assert(decreases_to!(self.entries@[k as int] => self.entries@[k as int].1));
            }
            entries.push((self.entries[k].0.clone(), self.entries[k].1.clone()));
            k += 1;
        }
        let copy = Dict { entries };
        assert(copy@ =~= self@);
        copy
    }
}

impl Dict {
    /// A dictionary without entries.
    pub fn new() -> (dict: Self)
        ensures
            dict@ == Seq::<(Seq<char>, ValueView)>::empty(),
    {
        let dict = Dict { entries: Vec::new() };
        assert(dict@ =~= Seq::<(Seq<char>, ValueView)>::empty());
        dict
    }

    /// The number of entries.
    pub fn len(&self) -> (n: usize)
        ensures
            n == self@.len(),
    {
        self.entries.len()
    }

    /// The entries, in order.
    pub fn entries(&self) -> (entries: &Vec<(String, Value)>)
        ensures
            entries@.len() == self@.len(),
            forall|k: int|
                0 <= k < entries@.len() ==> (#[trigger] self@[k]) == (
                    entries@[k].0@,
                    entries@[k].1@,
                ),
    {
        &self.entries
    }

    /// Position of the entry under `name`.
    fn find(&self, name: &String) -> (found: Option<usize>)
        ensures
            match found {
                Some(k) => named_at(self@, name@) == Some(k as int),
                None => named_at(self@, name@) is None,
            },
    {
        let mut k: usize = 0;
        while k < self.entries.len()
            invariant
                k <= self.entries.len(),
                self@.len() == self.entries@.len(),
                forall|m: int| 0 <= m < k ==> (#[trigger] self@[m]).0 != name@,
            decreases self.entries.len() - k,
        {
            if self.entries[k].0 == *name {
                proof {
                    assert(self@[k as int].0 == name@);
                    lemma_named_at(self@, name@);
                }
                return Some(k);
            }
            assert(self@[k as int].0 != name@);
            k += 1;
        }
        proof {
            lemma_named_at(self@, name@);
        }
        None
    }

    /// The value under `name`.
    pub fn get(&self, name: &str) -> (value: Option<&Value>)
        ensures
            match named_at(self@, name@) {
                Some(k) => value matches Some(held) && held@ == self@[k].1,
                None => value is None,
            },
    {
        let wanted = name.to_owned();
        match self.find(&wanted) {
            Some(k) => {
                proof {
                    lemma_named_at(self@, name@);
                    assert(self@[k as int].1 == self.entries@[k as int].1@);
                }
                Some(&self.entries[k].1)
            },
            None => None,
        }
    }

    /// Puts `value` under `name`: in the place of the value that was under that
    /// name where there was one, else at the end.
    pub fn insert(&mut self, name: String, value: Value)
        ensures
            final(self)@ == put(old(self)@, name@, value@),
    {
        proof {
            lemma_named_at(self@, name@);
        }
        match self.find(&name) {
            Some(k) => {
                let _ = self.entries.remove(k);
                self.entries.insert(k, (name, value));
                assert(self@ =~= old(self)@.update(k as int, (name@, value@)));
            },
            None => {
                self.entries.push((name, value));
                assert(self@ =~= old(self)@.push((name@, value@)));
            },
        }
    }
}

} // verus!
