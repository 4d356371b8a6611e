//! Argument lists, built piece by piece.

use vstd::prelude::*;

use crate::text::{opt, texts};

verus! {

/// The arguments, where the condition holds.
pub open spec fn only_if(cond: bool, args: Seq<Seq<char>>) -> Seq<Seq<char>> {
    if cond {
        args
    } else {
        Seq::empty()
    }
}

/// A flag with its value, where there is a value.
pub open spec fn flag(name: Seq<char>, value: Option<Seq<char>>) -> Seq<Seq<char>> {
    match value {
        Some(v) => seq![name, v],
        None => Seq::empty(),
    }
}

/// The flag once for each value.
pub open spec fn repeated(name: Seq<char>, values: Seq<Seq<char>>) -> Seq<Seq<char>>
    decreases values.len(),
{
    if values.len() == 0 {
        Seq::empty()
    } else {
        repeated(name, values.drop_last()) + seq![name, values.last()]
    }
}

pub fn no_args() -> (r: Vec<String>)
    ensures
        texts(r@) == Seq::<Seq<char>>::empty(),
{
    let v: Vec<String> = Vec::new();
    assert(texts(v@) =~= Seq::<Seq<char>>::empty());
    v
}

pub fn add_one(args: &mut Vec<String>, a: &str)
    ensures
        texts(final(args)@) == texts(old(args)@) + seq![a@],
{
    args.push(a.to_owned());
    assert(texts(args@) =~= texts(old(args)@) + seq![a@]);
}

pub fn add_pair(args: &mut Vec<String>, a: &str, b: &str)
    ensures
        texts(final(args)@) == texts(old(args)@) + seq![a@, b@],
{
    args.push(a.to_owned());
    args.push(b.to_owned());
    assert(texts(args@) =~= texts(old(args)@) + seq![a@, b@]);
}

pub fn add_when(args: &mut Vec<String>, cond: bool, a: &str)
    ensures
        texts(final(args)@) == texts(old(args)@) + only_if(cond, seq![a@]),
{
    if cond {
        add_one(args, a);
    }
    assert(texts(args@) =~= texts(old(args)@) + only_if(cond, seq![a@]));
}

pub fn add_pair_when(args: &mut Vec<String>, cond: bool, a: &str, b: &str)
    ensures
        texts(final(args)@) == texts(old(args)@) + only_if(cond, seq![a@, b@]),
{
    if cond {
        add_pair(args, a, b);
    }
    assert(texts(args@) =~= texts(old(args)@) + only_if(cond, seq![a@, b@]));
}

pub fn add_flag(args: &mut Vec<String>, name: &str, value: &Option<String>)
    ensures
        texts(final(args)@) == texts(old(args)@) + flag(name@, opt(*value)),
{
    if let Some(v) = value {
        add_pair(args, name, v.as_str());
    }
    assert(texts(args@) =~= texts(old(args)@) + flag(name@, opt(*value)));
}

pub fn add_repeated(args: &mut Vec<String>, name: &str, values: &Vec<String>)
    ensures
        texts(final(args)@) == texts(old(args)@) + repeated(name@, texts(values@)),
{
    let mut i: usize = 0;
    let ghost before = texts(args@);
    let ghost all = texts(values@);
    assert(before =~= before + repeated(name@, all.take(0)));
    while i < values.len()
        invariant
            i <= values.len(),
            all == texts(values@),
            texts(args@) == before + repeated(name@, all.take(i as int)),
        decreases values.len() - i,
    {
        proof {
            assert(all.take(i + 1).drop_last() =~= all.take(i as int));
            assert(all.take(i + 1).last() == values@[i as int]@);
            assert(before + (repeated(name@, all.take(i as int)) + seq![name@, values@[i as int]@])
                =~= before + repeated(name@, all.take(i as int)) + seq![name@, values@[i as int]@]);
        }
        add_pair(args, name, values[i].as_str());
        i += 1;
    }
    assert(all.take(i as int) =~= all);
}

pub fn add_all(args: &mut Vec<String>, more: &Vec<String>)
    ensures
        texts(final(args)@) == texts(old(args)@) + texts(more@),
{
    let ghost before = args@;
    let mut i: usize = 0;
    assert(args@ =~= before + more@.take(0));
    while i < more.len()
        invariant
            i <= more.len(),
            args@ == before + more@.take(i as int),
        decreases more.len() - i,
    {
        args.push(more[i].clone());
        assert(args@ =~= before + more@.take(i + 1));
        i += 1;
    }
    assert(texts(args@) =~= texts(before) + texts(more@));
}

/// A flag that is repeated stands before each of its values, which keep their order.
pub proof fn repeated_flags_stand_before_each_value(name: Seq<char>, values: Seq<Seq<char>>, i: int)
    ensures
        repeated(name, values).len() == 2 * values.len(),
        0 <= i < values.len() ==> repeated(name, values)[2 * i] == name,
        0 <= i < values.len() ==> repeated(name, values)[2 * i + 1] == values[i],
    decreases values.len(),
{
    if values.len() > 0 {
        let init = values.drop_last();
        repeated_flags_stand_before_each_value(name, init, i);
        let r = repeated(name, values);
        let before = repeated(name, init);
        assert(r == before + seq![name, values.last()]);
        if 0 <= i < init.len() {
            assert(r[2 * i] == before[2 * i]);
            assert(r[2 * i + 1] == before[2 * i + 1]);
            assert(init[i] == values[i]);
        } else if i == init.len() {
            assert(r[2 * i] == name);
            assert(r[2 * i + 1] == values.last());
        }
    }
}

/// A flag without a value is left out, and so is what is meant for another condition.
pub proof fn flags_need_a_value(name: Seq<char>, value: Seq<char>, args: Seq<Seq<char>>)
    ensures
        flag(name, None).len() == 0,
        flag(name, Some(value)).len() == 2,
        flag(name, Some(value))[0] == name,
        flag(name, Some(value))[1] == value,
        only_if(true, args) == args,
        only_if(false, args).len() == 0,
{
}

} // verus!
