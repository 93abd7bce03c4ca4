//! Text: lists of strings, decimal numerals, and names joined by a colon.
use vstd::prelude::*;
use vstd::string::*;

verus! {

/// The views of a list of strings.
pub open spec fn strs(list: Seq<String>) -> Seq<Seq<char>> {
    list.map_values(|s: String| s@)
}

/// The character of a decimal digit.
pub open spec fn digit_char(d: nat) -> char {
    if d == 0 {
        '0'
    } else if d == 1 {
        '1'
    } else if d == 2 {
        '2'
    } else if d == 3 {
        '3'
    } else if d == 4 {
        '4'
    } else if d == 5 {
        '5'
    } else if d == 6 {
        '6'
    } else if d == 7 {
        '7'
    } else if d == 8 {
        '8'
    } else {
        '9'
    }
}

/// The decimal numeral of a natural number, without leading zeros.
pub open spec fn digits(n: nat) -> Seq<char>
    decreases n,
{
    if n < 10 {
        seq![digit_char(n)]
    } else {
        digits(n / 10).push(digit_char(n % 10))
    }
}

/// The decimal numeral of an integer: a minus sign before the numeral of a
/// negative number's magnitude.
pub open spec fn spec_decimal(n: int) -> Seq<char> {
    if n < 0 {
        seq!['-'] + digits((-n) as nat)
    } else {
        digits(n as nat)
    }
}

/// Two names with a colon between them.
pub open spec fn joined(first: Seq<char>, rest: Seq<char>) -> Seq<char> {
    first + seq![':'] + rest
}

fn digit_text(d: u64) -> (text: &'static str)
    requires
        d < 10,
    ensures
        text@ == seq![digit_char(d as nat)],
{
    proof {
        reveal_strlit("0");
        reveal_strlit("1");
        reveal_strlit("2");
        reveal_strlit("3");
        reveal_strlit("4");
        reveal_strlit("5");
        reveal_strlit("6");
        reveal_strlit("7");
        reveal_strlit("8");
        reveal_strlit("9");
    }
    let text = if d == 0 {
        "0"
    } else if d == 1 {
        "1"
    } else if d == 2 {
        "2"
    } else if d == 3 {
        "3"
    } else if d == 4 {
        "4"
    } else if d == 5 {
        "5"
    } else if d == 6 {
        "6"
    } else if d == 7 {
        "7"
    } else if d == 8 {
        "8"
    } else {
        "9"
    };
    assert(text@ =~= seq![digit_char(d as nat)]);
    text
}

fn numeral(n: u64) -> (text: String)
    ensures
        text@ == digits(n as nat),
    decreases n,
{
    if n < 10 {
        String::from_str(digit_text(n))
    } else {
        let mut text = numeral(n / 10);
        text.append(digit_text(n % 10));
        assert(text@ =~= digits(n as nat));
        text
    }
}

/// The decimal numeral of `n`.
pub fn decimal(n: i64) -> (text: String)
    ensures
        text@ == spec_decimal(n as int),
{
    if n >= 0 {
        numeral(n as u64)
    } else {
        let magnitude: u64 = if n == i64::MIN {
            9223372036854775808u64
        } else {
            (-n) as u64
        };
        proof {
            reveal_strlit("-");
        }
        let mut text = String::from_str("-");
        let tail = numeral(magnitude);
        text.append(tail.as_str());
        assert(text@ =~= spec_decimal(n as int));
        text
    }
}

/// `first` and `rest` with a colon between them.
pub fn concat_string(first: &str, rest: &str) -> (name: String)
    ensures
        name@ == joined(first@, rest@),
{
    proof {
        reveal_strlit(":");
    }
    let mut name = String::from_str(first);
    name.append(":");
    name.append(rest);
    assert(name@ =~= joined(first@, rest@));
    name
}

/// A copy of a list of strings.
pub fn clone_strings(list: &Vec<String>) -> (copy: Vec<String>)
    ensures
        copy@ == list@,
{
    let copy = list.clone();
    assert(copy@ =~= list@);
    copy
}

/// The first position at which `item` stands in `list`, if it stands there.
pub fn position(list: &Vec<String>, item: &String) -> (at: Option<usize>)
    ensures
        match at {
            Some(i) => i < list.len() && list[i as int]@ == item@ && forall|j: int|
                0 <= j < i ==> list[j]@ != item@,
            None => !strs(list@).contains(item@),
        },
        strs(list@).index_of_first(item@) == match at {
            Some(i) => Some(i as int),
            None => None::<int>,
        },
{
    let mut i: usize = 0;
    while i < list.len()
        invariant
            i <= list.len(),
            forall|j: int| 0 <= j < i ==> list[j]@ != item@,
        decreases list.len() - i,
    {
        if list[i] == *item {
            proof {
                lemma_first_index(strs(list@), item@, i as int);
            }
            return Some(i);
        }
        i += 1;
    }
    assert(!strs(list@).contains(item@)) by {
        if strs(list@).contains(item@) {
            let j = choose|j: int| 0 <= j < strs(list@).len() && strs(list@)[j] == item@;
            assert(list[j]@ == item@);
        }
    }
    proof {
        strs(list@).index_of_first_ensures(item@);
    }
    None
}

/// A numeral has one digit exactly where the number is below ten, and holds no
/// minus sign.
pub proof fn lemma_digits_shape(n: nat)
    ensures
        digits(n).len() >= 1,
        digits(n).len() == 1 <==> n < 10,
        forall|i: int| 0 <= i < digits(n).len() ==> digits(n)[i] != '-',
    decreases n,
{
    if n >= 10 {
        lemma_digits_shape(n / 10);
    }
}

/// Two numbers with the same numeral are the same number.
pub proof fn lemma_digits_are_injective(a: nat, b: nat)
    requires
        digits(a) == digits(b),
    ensures
        a == b,
    decreases a,
{
    lemma_digits_shape(a);
    lemma_digits_shape(b);
    if a < 10 {
        assert(digits(a)[0] == digit_char(a));
        assert(digits(b)[0] == digit_char(b));
    } else {
        let front_a = digits(a / 10);
        let front_b = digits(b / 10);
        assert(digits(a).drop_last() =~= front_a);
        assert(digits(b).drop_last() =~= front_b);
        assert(digits(a).last() == digit_char(a % 10));
        assert(digits(b).last() == digit_char(b % 10));
        lemma_digits_are_injective(a / 10, b / 10);
    }
}

/// Two integers with the same decimal numeral are the same integer.
pub proof fn lemma_decimal_is_injective(a: int, b: int)
    requires
        spec_decimal(a) == spec_decimal(b),
    ensures
        a == b,
{
    let da = digits((if a < 0 { -a } else { a }) as nat);
    let db = digits((if b < 0 { -b } else { b }) as nat);
    lemma_digits_shape((if a < 0 { -a } else { a }) as nat);
    lemma_digits_shape((if b < 0 { -b } else { b }) as nat);
    if a < 0 {
        assert(spec_decimal(a)[0] == '-');
        if b >= 0 {
            assert(spec_decimal(b)[0] == db[0]);
        }
    } else {
        assert(spec_decimal(a)[0] == da[0]);
        if b < 0 {
            assert(spec_decimal(b)[0] == '-');
        }
    }
    if a < 0 && b < 0 {
        assert(da =~= spec_decimal(a).subrange(1, spec_decimal(a).len() as int));
        assert(db =~= spec_decimal(b).subrange(1, spec_decimal(b).len() as int));
    }
    lemma_digits_are_injective(
        (if a < 0 { -a } else { a }) as nat,
        (if b < 0 { -b } else { b }) as nat,
    );
}

/// Two names joined to the same first name are the same where the results
/// are.
pub proof fn lemma_joined_is_injective(first: Seq<char>, a: Seq<char>, b: Seq<char>)
    requires
        joined(first, a) == joined(first, b),
    ensures
        a == b,
{
    let prefix = first + seq![':'];
    assert(joined(first, a) =~= prefix + a);
    assert(joined(first, b) =~= prefix + b);
    assert(a.len() == b.len());
    assert forall|i: int| 0 <= i < a.len() implies a[i] == b[i] by {
        assert((prefix + a)[prefix.len() + i] == a[i]);
        assert((prefix + b)[prefix.len() + i] == b[i]);
    }
    assert(a =~= b);
}

/// The first position of an item is the one before which it does not stand.
pub proof fn lemma_first_index<A>(list: Seq<A>, item: A, at: int)
    requires
        0 <= at < list.len(),
        list[at] == item,
        forall|j: int| 0 <= j < at ==> list[j] != item,
    ensures
        list.index_of_first(item) == Some(at),
{
    list.index_of_first_ensures(item);
    assert(list.contains(item));
}

} // verus!
