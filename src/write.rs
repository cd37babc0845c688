use vstd::prelude::*;
use vstd::string::StringExecFns;

use crate::data::Data;
use crate::user::User;

verus! {

/// The character of a decimal digit.
pub open spec fn digit_char(d: nat) -> char {
    seq!['0', '1', '2', '3', '4', '5', '6', '7', '8', '9'][d as int]
}

/// `n` written in decimal, without leading zeros.
pub open spec fn decimal(n: nat) -> Seq<char>
    decreases n,
{
    if n < 10 {
        seq![digit_char(n)]
    } else {
        decimal(n / 10).push(digit_char(n % 10))
    }
}

/// How a user stored under `id` is shown: a heading line, then one
/// indented line per field.
pub open spec fn user_text(user: User, id: usize) -> Seq<char> {
    "User "@ + decimal(id as nat) + ":\n    First name: "@ + user.first_name@
        + "\n    Last name: "@ + user.last_name@ + "\n    Email: "@ + user.email@
        + "\n    Phone number: "@ + user.phone_number@ + "\n"@
}

fn digit_text(d: u128) -> (r: &'static str)
    requires
        d < 10,
    ensures
        r@ == seq![digit_char(d as nat)],
{
    proof {
        reveal_strlit("0");
        reveal_strlit("1");
        reveal_strlit("2");
        reveal_strlit("3");
        reveal_strlit("4");
        reveal_strlit("5");
        reveal_strlit("6");
        reveal_strlit("7");
        reveal_strlit("8");
        reveal_strlit("9");
    }
    if d == 0 {
        "0"
    } else if d == 1 {
        "1"
    } else if d == 2 {
        "2"
    } else if d == 3 {
        "3"
    } else if d == 4 {
        "4"
    } else if d == 5 {
        "5"
    } else if d == 6 {
        "6"
    } else if d == 7 {
        "7"
    } else if d == 8 {
        "8"
    } else {
        "9"
    }
}

/// Appends `n` in decimal to `out`.
pub(crate) fn write_decimal(out: &mut String, n: u128)
    ensures
        final(out)@ == old(out)@ + decimal(n as nat),
    decreases n,
{
    if n >= 10 {
        write_decimal(out, n / 10);
    }
    out.append(digit_text(n % 10));
    proof {
        if n >= 10 {
            assert(decimal(n as nat) == decimal((n / 10) as nat).push(digit_char((n % 10) as nat)));
        }
    }
}

/// Appends the text of `user`, stored under `id`, to `out`.
pub fn write_user(user: &User, id: usize, out: &mut String)
    ensures
        final(out)@ == old(out)@ + user_text(*user, id),
{
    out.append("User ");
    write_decimal(out, id as u128);
    out.append(":\n    First name: ");
    out.append(user.first_name.as_str());
    out.append("\n    Last name: ");
    out.append(user.last_name.as_str());
    out.append("\n    Email: ");
    out.append(user.email.as_str());
    out.append("\n    Phone number: ");
    out.append(user.phone_number.as_str());
    out.append("\n");
    proof {
        assert(final(out)@ =~= old(out)@ + user_text(*user, id));
    }
}

/// `s` holds the entries of `m`, one for each identifier, by increasing
/// identifier.
pub open spec fn in_id_order(m: Map<usize, User>, s: Seq<(usize, User)>) -> bool {
    &&& forall|i: int, j: int| 0 <= i < j < s.len() ==> s[i].0 < s[j].0
    &&& forall|i: int|
        0 <= i < s.len() ==> m.contains_key(#[trigger] s[i].0) && m[s[i].0] == s[i].1
    &&& forall|k: usize| #[trigger] m.contains_key(k) ==> exists|i: int| 0 <= i < s.len() && s[i].0 == k
}

/// The text of a list of entries: the text of each user, in turn, with a
/// blank line between two of them.
pub open spec fn listing(s: Seq<(usize, User)>) -> Seq<char>
    decreases s.len(),
{
    if s.len() == 0 {
        Seq::empty()
    } else if s.len() == 1 {
        user_text(s[0].1, s[0].0)
    } else {
        listing(s.drop_last()) + "\n"@ + user_text(s.last().1, s.last().0)
    }
}

/// The entries of `v`, which carry distinct identifiers, by increasing identifier.
fn sorted_by_id<'a>(v: &Vec<(usize, &'a User)>) -> (r: Vec<(usize, &'a User)>)
    requires
        forall|i: int, j: int|
            0 <= i < v@.len() && 0 <= j < v@.len() && #[trigger] v@[i].0 == #[trigger] v@[j].0
                ==> i == j,
    ensures
        r@.len() == v@.len(),
        forall|i: int, j: int| 0 <= i < j < r@.len() ==> r@[i].0 < r@[j].0,
        forall|j: int| 0 <= j < r@.len() ==> v@.contains(#[trigger] r@[j]),
        forall|i: int| 0 <= i < v@.len() ==> r@.contains(#[trigger] v@[i]),
{
    let mut r: Vec<(usize, &'a User)> = Vec::new();
    let mut i: usize = 0;
    while i < v.len()
        invariant
            i <= v@.len(),
            r@.len() == i,
            forall|a: int, b: int| 0 <= a < b < r@.len() ==> r@[a].0 < r@[b].0,
            forall|j: int|
                0 <= j < r@.len() ==> exists|k: int| 0 <= k < i && v@[k] == #[trigger] r@[j],
            forall|k: int| 0 <= k < i ==> r@.contains(#[trigger] v@[k]),
            forall|a: int, b: int|
                0 <= a < v@.len() && 0 <= b < v@.len() && #[trigger] v@[a].0 == #[trigger] v@[b].0
                    ==> a == b,
        decreases v@.len() - i,
    {
        let e = v[i];
        let mut pos: usize = 0;
        while pos < r.len() && r[pos].0 < e.0
            invariant
                pos <= r@.len(),
                forall|j: int| 0 <= j < pos ==> r@[j].0 < e.0,
            decreases r@.len() - pos,
        {
            pos += 1;
        }
        proof {
            if pos < r@.len() {
                let k = choose|k: int| 0 <= k < i && v@[k] == r@[pos as int];
                assert(v@[k].0 != v@[i as int].0);
                assert forall|j: int| pos <= j < r@.len() implies r@[j].0 > e.0 by {
                    if j > pos {
                        assert(r@[pos as int].0 < r@[j].0);
                    }
                }
            }
        }
        let ghost before = r@;
        r.insert(pos, e);
        proof {
            assert forall|j: int| 0 <= j < r@.len() implies exists|k: int|
                0 <= k < i + 1 && v@[k] == #[trigger] r@[j] by {
                if j < pos {
                    assert(r@[j] == before[j]);
                } else if j == pos {
                    assert(v@[i as int] == r@[j]);
                } else {
                    assert(r@[j] == before[j - 1]);
                }
            }
            assert forall|k: int| 0 <= k < i + 1 implies r@.contains(#[trigger] v@[k]) by {
                if k < i {
                    let j = choose|j: int| 0 <= j < before.len() && before[j] == v@[k];
                    if j < pos {
                        assert(r@[j] == v@[k]);
                    } else {
                        assert(r@[j + 1] == v@[k]);
                    }
                } else {
                    assert(r@[pos as int] == v@[k]);
                }
            }
        }
        i += 1;
    }
    proof {
        assert forall|j: int| 0 <= j < r@.len() implies v@.contains(#[trigger] r@[j]) by {
            let k = choose|k: int| 0 <= k < i && v@[k] == r@[j];
        }
    }
    r
}

/// Appends the text of every user of `data` to `out`, by increasing
/// identifier, with a blank line between two users.
pub fn show(data: &Data, out: &mut String)
    requires
        data@.wf(),
    ensures
        exists|s: Seq<(usize, User)>|
            in_id_order(data@.users, s) && final(out)@ == old(out)@ + listing(s),
{
    let entries = data.users();
    let sorted = sorted_by_id(&entries);
    let ghost s = sorted@.map_values(|p: (usize, &User)| (p.0, *p.1));
    let mut i: usize = 0;
    while i < sorted.len()
        invariant
            i <= sorted@.len(),
            s == sorted@.map_values(|p: (usize, &User)| (p.0, *p.1)),
            out@ == old(out)@ + listing(s.take(i as int)),
        decreases sorted@.len() - i,
    {
        if i > 0 {
            out.append("\n");
        }
        let (id, user) = sorted[i];
        write_user(user, id, out);
        proof {
            let t = s.take(i + 1);
            assert(t.drop_last() =~= s.take(i as int));
            if i == 0 {
                assert(s.take(0) =~= Seq::<(usize, User)>::empty());
            }
        }
        i += 1;
    }
    proof {
        assert(s.take(i as int) =~= s);
        let m = data@.users;
        assert forall|k: usize| #[trigger] m.contains_key(k) implies exists|j: int|
            0 <= j < s.len() && s[j].0 == k by {
            let a = choose|a: int| 0 <= a < entries@.len() && #[trigger] entries@[a].0 == k;
            assert(sorted@.contains(entries@[a]));
            let j = choose|j: int| 0 <= j < sorted@.len() && sorted@[j] == entries@[a];
            assert(s[j].0 == k);
        }
        assert forall|j: int| 0 <= j < s.len() implies m.contains_key(#[trigger] s[j].0)
            && m[s[j].0] == s[j].1 by {
            assert(entries@.contains(sorted@[j]));
        }
        assert(in_id_order(m, s));
    }
}

} // verus!
