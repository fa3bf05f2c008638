//! Window classes tell windows apart: no two identities share a class, so a
//! window found by the class of a request is the window of that request.

use vstd::prelude::*;
use crate::geometry::Rect;
use crate::layout::{arrange, Address};
use crate::spawn::{path_suffix, window_class};
use crate::text::{digit, digits};
use crate::tiling::{lemma_arrange_tiles, separate};
use crate::tree::Tree;

verus! {

/// The digit that `c` stands for; zero for any other character.
pub open spec fn digit_value(c: char) -> nat {
    if c == '1' {
        1
    } else if c == '2' {
        2
    } else if c == '3' {
        3
    } else if c == '4' {
        4
    } else if c == '5' {
        5
    } else if c == '6' {
        6
    } else if c == '7' {
        7
    } else if c == '8' {
        8
    } else if c == '9' {
        9
    } else {
        0
    }
}

/// The number that the numeral `s` spells.
pub open spec fn numeral_value(s: Seq<char>) -> nat
    decreases s.len(),
{
    if s.len() == 0 {
        0
    } else {
        numeral_value(s.drop_last()) * 10 + digit_value(s.last())
    }
}

/// The monitor and the path as the window class spells them, without the
/// prefix.
pub open spec fn name(monitor: nat, path: Seq<nat>) -> Seq<char> {
    digits(monitor) + path_suffix(path)
}

/// A numeral is not empty, holds no underscore, and spells its number.
pub proof fn lemma_digits(n: nat)
    ensures
        digits(n).len() >= 1,
        forall|i: int| 0 <= i < digits(n).len() ==> digits(n)[i] != '_',
        numeral_value(digits(n)) == n,
    decreases n,
{
    if n < 10 {
        assert(digits(n).drop_last() =~= Seq::<char>::empty());
        assert(numeral_value(digits(n).drop_last()) == 0);
        assert(digits(n).last() == digit(n));
    } else {
        lemma_digits(n / 10);
        assert(digits(n).drop_last() =~= digits(n / 10));
        assert(digits(n).last() == digit(n % 10));
    }
}

/// Different numbers have different numerals.
pub proof fn lemma_digits_injective(a: nat, b: nat)
    requires
        digits(a) == digits(b),
    ensures
        a == b,
{
    lemma_digits(a);
    lemma_digits(b);
}

/// The name of a path that is not empty is the name of the path without its
/// last index, an underscore, and the numeral of that index.
proof fn lemma_name_unfolds(monitor: nat, path: Seq<nat>)
    requires
        path.len() > 0,
    ensures
        name(monitor, path) == name(monitor, path.drop_last()) + seq!['_'] + digits(path.last()),
        name(monitor, path).len() == name(monitor, path.drop_last()).len() + 1 + digits(
            path.last(),
        ).len(),
{
    assert(name(monitor, path) =~= name(monitor, path.drop_last()) + seq!['_'] + digits(
        path.last(),
    ));
}

/// Names are told apart by what they name.
proof fn lemma_name_injective(ma: nat, pa: Seq<nat>, mb: nat, pb: Seq<nat>)
    requires
        name(ma, pa) == name(mb, pb),
    ensures
        ma == mb,
        pa == pb,
    decreases pa.len() + pb.len(),
{
    let s = name(ma, pa);
    if pa.len() == 0 && pb.len() == 0 {
        assert(name(ma, pa) =~= digits(ma));
        assert(name(mb, pb) =~= digits(mb));
        lemma_digits_injective(ma, mb);
        assert(pa =~= pb);
    } else if pa.len() == 0 {
        lemma_numeral_has_no_suffix(ma, mb, pb);
    } else if pb.len() == 0 {
        lemma_numeral_has_no_suffix(mb, ma, pa);
    } else {
        let ha = name(ma, pa.drop_last());
        let hb = name(mb, pb.drop_last());
        let da = digits(pa.last());
        let db = digits(pb.last());
        lemma_name_unfolds(ma, pa);
        lemma_name_unfolds(mb, pb);
        lemma_digits(pa.last());
        lemma_digits(pb.last());
        assert(s == ha + seq!['_'] + da);
        assert(s == hb + seq!['_'] + db);
        if da.len() < db.len() {
            let k = ha.len() as int;
            assert(s[k] == '_');
            assert(s[k] == db[k - hb.len() - 1]);
        } else if db.len() < da.len() {
            let k = hb.len() as int;
            assert(s[k] == '_');
            assert(s[k] == da[k - ha.len() - 1]);
        }
        assert(ha.len() == hb.len());
        assert(ha =~= s.subrange(0, ha.len() as int));
        assert(hb =~= s.subrange(0, hb.len() as int));
        assert(da =~= s.subrange(ha.len() as int + 1, s.len() as int));
        assert(db =~= s.subrange(hb.len() as int + 1, s.len() as int));
        lemma_digits_injective(pa.last(), pb.last());
        lemma_name_injective(ma, pa.drop_last(), mb, pb.drop_last());
        assert(pa =~= pa.drop_last().push(pa.last()));
        assert(pb =~= pb.drop_last().push(pb.last()));
    }
}

/// A bare numeral is no name of a path that is not empty.
proof fn lemma_numeral_has_no_suffix(bare: nat, monitor: nat, path: Seq<nat>)
    requires
        path.len() > 0,
    ensures
        name(bare, Seq::empty()) != name(monitor, path),
{
    let s = name(monitor, path);
    lemma_name_unfolds(monitor, path);
    lemma_digits(bare);
    let k = name(monitor, path.drop_last()).len() as int;
    assert(s[k] == '_');
    assert(name(bare, Seq::empty()) =~= digits(bare));
}

/// No two identities share a window class.
pub proof fn lemma_window_class_injective(a: Address, b: Address)
    requires
        window_class(a) == window_class(b),
    ensures
        a == b,
{
    let prefix = "firefox_window_"@;
    let na = name(a.monitor as nat, a.path);
    let nb = name(b.monitor as nat, b.path);
    assert(window_class(a) =~= prefix + na);
    assert(window_class(b) =~= prefix + nb);
    assert(na =~= (prefix + na).subrange(prefix.len() as int, (prefix + na).len() as int));
    assert(nb =~= (prefix + nb).subrange(prefix.len() as int, (prefix + nb).len() as int));
    lemma_name_injective(a.monitor as nat, a.path, b.monitor as nat, b.path);
}

/// The requests of one layout are to windows of different classes.
pub proof fn lemma_layout_classes_distinct(
    tree: Tree,
    rect: Rect,
    monitor: u32,
    path: Seq<nat>,
    i: int,
    j: int,
)
    requires
        tree.valid(),
        rect.valid(),
        0 <= i < j < arrange(tree, rect, monitor, path).len(),
    ensures
        window_class(arrange(tree, rect, monitor, path)[i].identity) != window_class(
            arrange(tree, rect, monitor, path)[j].identity,
        ),
{
    let ps = arrange(tree, rect, monitor, path);
    lemma_arrange_tiles(tree, rect, monitor, path);
    assert(separate(ps));
    assert(ps[i].identity != ps[j].identity);
    if window_class(ps[i].identity) == window_class(ps[j].identity) {
        lemma_window_class_injective(ps[i].identity, ps[j].identity);
    }
}

} // verus!
