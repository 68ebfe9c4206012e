//! Plain functions and a record for a scripting host to call.

use vstd::prelude::*;
use vstd::string::StringExecFns;

verus! {

/// The sum of `values`.
pub open spec fn sum_of(values: Seq<i32>) -> int
    decreases values.len(),
{
    if values.len() == 0 {
        0
    } else {
        sum_of(values.drop_last()) + values.last()
    }
}

/// Whether `values` can be added up from left to right in 32 bits without
/// ever leaving their range.
pub open spec fn sums_fit(values: Seq<i32>) -> bool {
    forall|k: int|
        0 <= k <= values.len() ==> i32::MIN <= #[trigger] sum_of(values.take(k)) <= i32::MAX
}

/// The text of a single decimal digit.
pub open spec fn digit_text(digit: nat) -> Seq<char> {
    if digit == 0 {
        "0"@
    } else if digit == 1 {
        "1"@
    } else if digit == 2 {
        "2"@
    } else if digit == 3 {
        "3"@
    } else if digit == 4 {
        "4"@
    } else if digit == 5 {
        "5"@
    } else if digit == 6 {
        "6"@
    } else if digit == 7 {
        "7"@
    } else if digit == 8 {
        "8"@
    } else {
        "9"@
    }
}

/// A number written in decimal, without leading zeros.
pub open spec fn decimal(n: nat) -> Seq<char>
    decreases n,
{
    if n < 10 {
        digit_text(n)
    } else {
        decimal(n / 10) + digit_text(n % 10)
    }
}

/// `a` plus `b`.
pub fn add(a: i32, b: i32) -> (total: i32)
    requires
        i32::MIN <= a + b <= i32::MAX,
    ensures
        total == a + b,
{
    a + b
}

/// A greeting for `s`.
pub fn greet(s: String) -> (greeting: String)
    ensures
        greeting@ == "Hello "@ + s@,
{
    String::from_str("Hello ").concat(s.as_str())
}

/// Adds `arr` up from left to right, as long as the running total stays in
/// range; `None` as soon as it does not.
pub fn checked_sum(arr: &[i32]) -> (total: Option<i32>)
    ensures
        total is Some <==> sums_fit(arr@),
        total matches Some(t) ==> t == sum_of(arr@),
{
    let mut total: i32 = 0;
    let mut next: usize = 0;
    while next < arr.len()
        invariant
            next <= arr@.len(),
            total == sum_of(arr@.take(next as int)),
            forall|k: int|
                0 <= k <= next ==> i32::MIN <= #[trigger] sum_of(arr@.take(k)) <= i32::MAX,
        decreases arr@.len() - next,
    {
        proof {
            assert(arr@.take(next + 1).drop_last() =~= arr@.take(next as int));
        }
        match total.checked_add(arr[next]) {
            Some(more) => {
                total = more;
            },
            None => {
                proof {
                    let past = sum_of(arr@.take(next + 1));
                    assert(past == total + arr@[next as int]);
                    assert(!(i32::MIN <= past <= i32::MAX));
                }
                return None;
            },
        }
        next = next + 1;
    }
    proof {
        assert(arr@.take(next as int) =~= arr@);
    }
    Some(total)
}

/// The sum of `arr`.
pub fn sum(arr: &[i32]) -> (total: i32)
    requires
        sums_fit(arr@),
    ensures
        total == sum_of(arr@),
{
    let mut total: i32 = 0;
    let mut next: usize = 0;
    while next < arr.len()
        invariant
            next <= arr@.len(),
            sums_fit(arr@),
            total == sum_of(arr@.take(next as int)),
        decreases arr@.len() - next,
    {
        proof {
            assert(arr@.take(next + 1).drop_last() =~= arr@.take(next as int));
            assert(i32::MIN <= sum_of(arr@.take(next + 1)) <= i32::MAX);
        }
        total = total + arr[next];
        next = next + 1;
    }
    proof {
        assert(arr@.take(next as int) =~= arr@);
    }
    total
}

fn digit_str(digit: u8) -> (text: &'static str)
    requires
        digit < 10,
    ensures
        text@ == digit_text(digit as nat),
{
    match digit {
        0 => "0",
        1 => "1",
        2 => "2",
        3 => "3",
        4 => "4",
        5 => "5",
        6 => "6",
        7 => "7",
        8 => "8",
        _ => "9",
    }
}

/// Writes `n` in decimal.
pub fn decimal_text(n: u8) -> (text: String)
    ensures
        text@ == decimal(n as nat),
{
    let mut text = String::new();
    if n >= 100 {
        text.append(digit_str(n / 100));
    }
    if n >= 10 {
        text.append(digit_str((n / 10) % 10));
    }
    text.append(digit_str(n % 10));
    proof {
        reveal_with_fuel(decimal, 3);
        assert(text@ =~= decimal(n as nat));
    }
    text
}

/// A person, by name and age.
#[derive(Debug)]
pub struct Person {
    name: String,
    age: u8,
}

/// What a `Person` stands for.
pub struct PersonView {
    pub name: Seq<char>,
    pub age: u8,
}

impl View for Person {
    type V = PersonView;

    closed spec fn view(&self) -> PersonView {
        PersonView { name: self.name@, age: self.age }
    }
}

impl Person {
    /// How a person of this name and age introduces itself.
    pub open spec fn introduction(name: Seq<char>, age: u8) -> Seq<char> {
        "Hello, my name is "@ + name + " and I am "@ + decimal(age as nat) + " years old"@
    }

    pub fn new(name: String, age: u8) -> (person: Person)
        ensures
            person@ == (PersonView { name: name@, age }),
    {
        Person { name, age }
    }

    /// The person's name.
    pub fn name(&self) -> (name: &str)
        ensures
            name@ == self@.name,
    {
        self.name.as_str()
    }

    /// The person's introduction of itself.
    pub fn greet(&self) -> (greeting: String)
        ensures
            greeting@ == Person::introduction(self@.name, self@.age),
    {
        let mut greeting = String::from_str("Hello, my name is ");
        greeting.append(self.name.as_str());
        greeting.append(" and I am ");
        let age = decimal_text(self.age);
        greeting.append(age.as_str());
        greeting.append(" years old");
        greeting
    }

    pub fn set_age(&mut self, age: u8)
        ensures
            final(self)@ == (PersonView { name: old(self)@.name, age }),
    {
        self.age = age;
    }

    pub fn get_age(&self) -> (age: u8)
        ensures
            age == self@.age,
    {
        self.age
    }
}

} // verus!
