//! The argument values a tool call carries, and the validation every tool
//! applies before it runs: a minimal model of the JSON shapes the engine
//! actually reads.

use vstd::prelude::*;

use crate::tools::ToolExecutionResult;

verus! {

/// One argument value.
#[derive(Debug)]
pub enum ArgValue {
    Null,
    Bool(bool),
    Num(u64),
    Str(String),
    List(Vec<ArgValue>),
    Object(Vec<(String, ArgValue)>),
}

/// The value bound to `key` in a map's entries, by first occurrence.
pub open spec fn entries_lookup(es: Seq<(String, ArgValue)>, key: Seq<char>) -> Option<ArgValue>
    decreases es.len(),
{
    if es.len() == 0 {
        None
    } else if es.first().0@ == key {
        Some(es.first().1)
    } else {
        entries_lookup(es.drop_first(), key)
    }
}

/// The value bound to `key` when `args` is a map.
pub open spec fn arg_lookup(args: ArgValue, key: Seq<char>) -> Option<ArgValue> {
    match args {
        ArgValue::Object(es) => entries_lookup(es@, key),
        _ => None,
    }
}

/// The string bound to `key`, when there is one.
pub open spec fn str_field(args: ArgValue, key: Seq<char>) -> Option<Seq<char>> {
    match arg_lookup(args, key) {
        Some(ArgValue::Str(s)) => Some(s@),
        _ => None,
    }
}

/// The number bound to `key`, when there is one.
pub open spec fn num_field(args: ArgValue, key: Seq<char>) -> Option<u64> {
    match arg_lookup(args, key) {
        Some(ArgValue::Num(n)) => Some(n),
        _ => None,
    }
}

/// The boolean bound to `key`, when there is one.
pub open spec fn bool_field(args: ArgValue, key: Seq<char>) -> Option<bool> {
    match arg_lookup(args, key) {
        Some(ArgValue::Bool(b)) => Some(b),
        _ => None,
    }
}

/// The list bound to `key`, when there is one.
pub open spec fn list_field(args: ArgValue, key: Seq<char>) -> Option<Seq<ArgValue>> {
    match arg_lookup(args, key) {
        Some(ArgValue::List(items)) => Some(items@),
        _ => None,
    }
}

impl ArgValue {
    /// The value bound to `key`, when this is a map holding one.
    pub fn get(&self, key: &str) -> (r: Option<&ArgValue>)
        ensures
            match r {
                Some(v) => arg_lookup(*self, key@) == Some(*v),
                None => arg_lookup(*self, key@) is None,
            },
    {
        match self {
            ArgValue::Object(es) => {
                let n = es.len();
                let mut i: usize = 0;
                proof {
                    assert(es@.skip(0) =~= es@);
                }
                while i < n
                    invariant
                        n == es@.len(),
                        0 <= i <= n,
                        entries_lookup(es@, key@) == entries_lookup(es@.skip(i as int), key@),
                        arg_lookup(*self, key@) == entries_lookup(es@, key@),
                    decreases n - i,
                {
                    proof {
                        assert(es@.skip(i as int).first() == es@[i as int]);
                        assert(es@.skip(i as int).drop_first() =~= es@.skip(i + 1));
                    }
                    if crate::text::str_eq(es[i].0.as_str(), key) {
                        return Some(&es[i].1);
                    }
                    i = i + 1;
                }
                None
            },
            _ => None,
        }
    }

    /// The string this value holds, when it is a string.
    pub fn as_str(&self) -> (r: Option<&String>)
        ensures
            match r {
                Some(s) => *self is Str && self->Str_0@ == s@,
                None => !(*self is Str),
            },
    {
        match self {
            ArgValue::Str(s) => Some(s),
            _ => None,
        }
    }

    /// The number this value holds, when it is a number.
    pub fn as_u64(&self) -> (r: Option<u64>)
        ensures
            match r {
                Some(n) => *self == ArgValue::Num(n),
                None => !(*self is Num),
            },
    {
        match self {
            ArgValue::Num(n) => Some(*n),
            _ => None,
        }
    }

    /// The boolean this value holds, when it is a boolean.
    pub fn as_bool(&self) -> (r: Option<bool>)
        ensures
            match r {
                Some(b) => *self == ArgValue::Bool(b),
                None => !(*self is Bool),
            },
    {
        match self {
            ArgValue::Bool(b) => Some(*b),
            _ => None,
        }
    }
}

/// The error observation for one missing or unusable required argument.
pub open spec fn missing_arg_error(field: Seq<char>) -> Seq<char> {
    "Error: Missing required argument `"@ + field + "`."@
}

pub fn missing_argument(field: &str) -> (r: ToolExecutionResult)
    ensures
        r.is_error,
        r.output@ == missing_arg_error(field@),
{
    let mut out = String::from_str("Error: Missing required argument `");
    out.append(field);
    out.append("`.");
    ToolExecutionResult::error(out)
}

/// A required argument is usable when it is a non-empty string.
pub open spec fn usable_str_field(args: ArgValue, key: Seq<char>) -> bool {
    match str_field(args, key) {
        Some(v) => v.len() > 0,
        None => false,
    }
}

/// Extracts one required string argument; a missing, non-string or empty
/// value yields the error observation the model sees.
pub fn require_string_arg<'a>(args: &'a ArgValue, field: &str) -> (r: Result<
    &'a String,
    ToolExecutionResult,
>)
    ensures
        match r {
            Ok(s) => usable_str_field(*args, field@) && str_field(*args, field@) == Some(s@),
            Err(e) => {
                &&& !usable_str_field(*args, field@)
                &&& e.is_error
                &&& e.output@ == missing_arg_error(field@)
            },
        },
{
    match args.get(field) {
        Some(v) => match v.as_str() {
            Some(s) => {
                if s.as_str().unicode_len() > 0 {
                    Ok(s)
                } else {
                    Err(missing_argument(field))
                }
            },
            None => Err(missing_argument(field)),
        },
        None => Err(missing_argument(field)),
    }
}

/// An identical extraction for path arguments.
pub fn require_path_arg<'a>(args: &'a ArgValue, field: &str) -> (r: Result<
    &'a String,
    ToolExecutionResult,
>)
    ensures
        match r {
            Ok(s) => usable_str_field(*args, field@) && str_field(*args, field@) == Some(s@),
            Err(e) => {
                &&& !usable_str_field(*args, field@)
                &&& e.is_error
                &&& e.output@ == missing_arg_error(field@)
            },
        },
{
    require_string_arg(args, field)
}

/// An optional path argument: a non-empty string when given, else the
/// default.
pub fn optional_path_arg<'a>(args: &'a ArgValue, field: &str, default: &'a str) -> (r: &'a str)
    ensures
        usable_str_field(*args, field@) ==> Some(r@) == str_field(*args, field@),
        !usable_str_field(*args, field@) ==> r@ == default@,
{
    match args.get(field) {
        Some(v) => match v.as_str() {
            Some(s) => {
                if s.as_str().unicode_len() > 0 {
                    s.as_str()
                } else {
                    default
                }
            },
            None => default,
        },
        None => default,
    }
}

/// An optional number argument with a default.
pub fn optional_num_arg(args: &ArgValue, field: &str, default: u64) -> (r: u64)
    ensures
        r == match num_field(*args, field@) {
            Some(n) => n,
            None => default,
        },
{
    match args.get(field) {
        Some(v) => match v.as_u64() {
            Some(n) => n,
            None => default,
        },
        None => default,
    }
}

/// An optional boolean argument with a default.
pub fn optional_bool_arg(args: &ArgValue, field: &str, default: bool) -> (r: bool)
    ensures
        r == match bool_field(*args, field@) {
            Some(b) => b,
            None => default,
        },
{
    match args.get(field) {
        Some(v) => match v.as_bool() {
            Some(b) => b,
            None => default,
        },
        None => default,
    }
}

/// The non-empty strings among a list's items, in order.
pub open spec fn str_items(items: Seq<ArgValue>) -> Seq<Seq<char>>
    decreases items.len(),
{
    if items.len() == 0 {
        Seq::empty()
    } else {
        let rest = str_items(items.drop_first());
        match items.first() {
            ArgValue::Str(s) => if s@.len() > 0 {
                seq![s@] + rest
            } else {
                rest
            },
            _ => rest,
        }
    }
}

proof fn lemma_str_items_take_step(items: Seq<ArgValue>, i: int)
    requires
        0 <= i < items.len(),
    ensures
        str_items(items.take(i + 1)) == str_items(items.take(i)) + (match items[i] {
            ArgValue::Str(s) => if s@.len() > 0 {
                seq![s@]
            } else {
                Seq::<Seq<char>>::empty()
            },
            _ => Seq::<Seq<char>>::empty(),
        }),
    decreases i,
{
    let a = items.take(i + 1);
    let b = items.take(i);
    if i == 0 {
        assert(a =~= seq![items[0]]);
        assert(b =~= Seq::<ArgValue>::empty());
        assert(str_items(b) =~= Seq::<Seq<char>>::empty());
        assert(a.drop_first() =~= Seq::<ArgValue>::empty());
        assert(str_items(a.drop_first()) =~= Seq::<Seq<char>>::empty());
        assert(a.first() == items[0]);
        match items[0] {
            ArgValue::Str(s) => {
                if s@.len() > 0 {
                    assert(str_items(a) =~= seq![s@]);
                } else {
                    assert(str_items(a) =~= Seq::<Seq<char>>::empty());
                }
            },
            _ => {
                assert(str_items(a) =~= Seq::<Seq<char>>::empty());
            },
        }
    } else {
        assert(a.first() == items[0]);
        assert(b.first() == items[0]);
        assert(a.drop_first() =~= items.drop_first().take(i));
        assert(b.drop_first() =~= items.drop_first().take(i - 1));
        lemma_str_items_take_step(items.drop_first(), i - 1);
        assert(items.drop_first()[i - 1] == items[i]);
    }
}

/// The error observation for a list argument with no usable item.
pub open spec fn empty_list_error(field: Seq<char>) -> Seq<char> {
    "Error: `"@ + field + "` must contain at least one non-empty path."@
}

/// Extracts a required list of non-empty strings: a missing or non-list
/// value is one error; a list without a single usable item is another.
pub fn require_string_array_arg(args: &ArgValue, field: &str) -> (r: Result<
    Vec<String>,
    ToolExecutionResult,
>)
    ensures
        match r {
            Ok(v) => {
                &&& list_field(*args, field@) is Some
                &&& v@.map_values(|s: String| s@) == str_items(list_field(*args, field@)->0)
                &&& v@.len() > 0
            },
            Err(e) => {
                &&& e.is_error
                &&& match list_field(*args, field@) {
                    None => e.output@ == missing_arg_error(field@),
                    Some(items) => str_items(items).len() == 0 && e.output@ == empty_list_error(
                        field@,
                    ),
                }
            },
        },
{
    let items: &Vec<ArgValue> = match args.get(field) {
        Some(ArgValue::List(items)) => items,
        _ => {
            return Err(missing_argument(field));
        },
    };
    let mut out: Vec<String> = Vec::new();
    let n = items.len();
    let mut i: usize = 0;
    proof {
        assert(items@.take(0) =~= Seq::<ArgValue>::empty());
        assert(out@.map_values(|s: String| s@) =~= str_items(items@.take(0)));
    }
    while i < n
        invariant
            n == items@.len(),
            0 <= i <= n,
            out@.map_values(|s: String| s@) == str_items(items@.take(i as int)),
        decreases n - i,
    {
        let ghost prev = out@;
        match &items[i] {
            ArgValue::Str(s) => {
                if s.as_str().unicode_len() > 0 {
                    out.push(s.clone());
                    proof {
                        assert(out@.map_values(|s: String| s@) =~= prev.map_values(
                            |s: String| s@,
                        ).push(s@));
                    }
                }
            },
            _ => {},
        }
        proof {
            lemma_str_items_take_step(items@, i as int);
            assert(out@.map_values(|s: String| s@) =~= str_items(items@.take(i + 1)));
        }
        i = i + 1;
    }
    proof {
        assert(items@.take(n as int) =~= items@);
    }
    if out.len() == 0 {
        let mut msg = String::from_str("Error: `");
        msg.append(field);
        msg.append("` must contain at least one non-empty path.");
        Err(ToolExecutionResult::error(msg))
    } else {
        Ok(out)
    }
}

} // verus!
