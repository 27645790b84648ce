//! Presentation helpers shared by the commands.

use vstd::prelude::*;

use crate::base::domain::{cur_dir, home_dir, is_absolute};
use crate::text::{join, join_strs, owned, push_str, split_spec, split_str, str_eq};

verus! {

/// The component standing for the root directory.
pub open spec fn root_comp() -> Seq<char> {
    seq!['/']
}

/// The normal components among path segments: empty and `.` segments are
/// dropped.
pub open spec fn normal_comps(segs: Seq<Seq<char>>) -> Seq<Seq<char>>
    decreases segs.len(),
{
    if segs.len() == 0 {
        Seq::empty()
    } else if segs.last().len() == 0 || segs.last() == cur_dir() {
        normal_comps(segs.drop_last())
    } else {
        normal_comps(segs.drop_last()).push(segs.last())
    }
}

/// `Path::components` of a Unix path: the root (as `/`) for an absolute
/// path, a leading `.` for a path that starts with one, then its normal
/// components. Repeated separators and inner `.` segments vanish.
pub open spec fn components(p: Seq<char>) -> Seq<Seq<char>> {
    let segs = split_spec(p, '/');
    if is_absolute(p) {
        seq![root_comp()] + normal_comps(segs)
    } else if segs.len() > 0 && segs[0] == cur_dir() {
        seq![cur_dir()] + normal_comps(segs.drop_first())
    } else {
        normal_comps(segs)
    }
}

/// How a path is shown: below the home directory as `~` or `~/<rest>`,
/// otherwise as it is.
pub open spec fn display_path(path: Seq<char>, home: Option<Seq<char>>) -> Seq<char> {
    match home {
        Some(h) => {
            let pc = components(path);
            let hc = components(h);
            if hc.is_prefix_of(pc) {
                let rest = pc.skip(hc.len() as int);
                if rest.len() == 0 {
                    "~"@
                } else {
                    "~/"@ + join(rest, "/"@)
                }
            } else {
                path
            }
        },
        None => path,
    }
}

fn normal_comps_exec(segs: &Vec<String>, from: usize) -> (r: Vec<String>)
    requires
        from <= segs@.len(),
    ensures
        r.deep_view() == normal_comps(segs.deep_view().skip(from as int)),
{
    let ghost sv = segs.deep_view().skip(from as int);
    let mut out: Vec<String> = Vec::new();
    let mut i: usize = from;
    assert(sv.take(0) =~= Seq::<Seq<char>>::empty());
    assert(out.deep_view() =~= Seq::<Seq<char>>::empty());
    while i < segs.len()
        invariant
            from <= i <= segs@.len(),
            sv == segs.deep_view().skip(from as int),
            out.deep_view() == normal_comps(sv.take(i - from)),
        decreases segs.len() - i,
    {
        let s = &segs[i];
        assert(sv.take(i - from + 1).drop_last() =~= sv.take(i - from));
        assert(sv.take(i - from + 1).last() == s@);
        let empty = s.unicode_len() == 0;
        let dot = str_eq(s.as_str(), ".");
        proof {
            reveal_strlit(".");
            assert("."@ =~= cur_dir());
        }
        if !(empty || dot) {
            let ghost before = out.deep_view();
            out.push(s.clone());
            assert(out.deep_view() =~= before.push(s@));
        }
        i = i + 1;
    }
    assert(sv.take(segs@.len() - from) =~= sv);
    out
}

/// The components of a path (see [`components`]).
pub fn path_components(p: &str) -> (r: Vec<String>)
    ensures
        r.deep_view() == components(p@),
{
    let segs = split_str(p, '/');
    let cs = crate::text::chars_of(p);
    proof {
        reveal_strlit(".");
        assert("."@ =~= cur_dir());
    }
    if cs.len() > 0 && cs[0] == '/' {
        let mut r: Vec<String> = Vec::new();
        let mut root = String::new();
        crate::text::push_char(&mut root, '/');
        r.push(root);
        let rest = normal_comps_exec(&segs, 0);
        let ghost head = r.deep_view();
        assert(head =~= seq![root_comp()]);
        assert(segs.deep_view().skip(0) =~= segs.deep_view());
        let mut k: usize = 0;
        while k < rest.len()
            invariant
                k <= rest@.len(),
                r.deep_view() == head + rest.deep_view().take(k as int),
            decreases rest.len() - k,
        {
            let ghost b = r.deep_view();
            r.push(rest[k].clone());
            assert(r.deep_view() =~= b.push(rest[k as int]@));
            assert(rest.deep_view().take(k + 1) =~= rest.deep_view().take(k as int).push(rest[k as int]@));
            k = k + 1;
        }
        assert(rest.deep_view().take(rest@.len() as int) =~= rest.deep_view());
        r
    } else if segs.len() > 0 && str_eq(segs[0].as_str(), ".") {
        let mut r: Vec<String> = Vec::new();
        r.push(owned("."));
        let rest = normal_comps_exec(&segs, 1);
        let ghost head = r.deep_view();
        assert(head =~= seq![cur_dir()]);
        assert(segs.deep_view().skip(1) =~= segs.deep_view().drop_first());
        let mut k: usize = 0;
        while k < rest.len()
            invariant
                k <= rest@.len(),
                r.deep_view() == head + rest.deep_view().take(k as int),
            decreases rest.len() - k,
        {
            let ghost b = r.deep_view();
            r.push(rest[k].clone());
            assert(r.deep_view() =~= b.push(rest[k as int]@));
            assert(rest.deep_view().take(k + 1) =~= rest.deep_view().take(k as int).push(rest[k as int]@));
            k = k + 1;
        }
        assert(rest.deep_view().take(rest@.len() as int) =~= rest.deep_view());
        r
    } else {
        assert(segs.deep_view().skip(0) =~= segs.deep_view());
        normal_comps_exec(&segs, 0)
    }
}

/// Shows `path` relative to `home` when it lies below it (see
/// [`display_path`]).
#[verifier::loop_isolation(false)]
pub fn format_path_with(path: &str, home: &Option<String>) -> (r: String)
    ensures
        r@ == display_path(path@, match home {
            Some(h) => Some(h@),
            None => None,
        }),
{
    match home {
        None => owned(path),
        Some(h) => {
            let pc = path_components(path);
            let hc = path_components(h.as_str());
            if hc.len() > pc.len() {
                return owned(path);
            }
            let mut i: usize = 0;
            while i < hc.len()
                invariant
                    i <= hc@.len() <= pc@.len(),
                    hc.deep_view() == components(h@),
                    pc.deep_view() == components(path@),
                    forall|j: int| 0 <= j < i ==> hc@[j]@ == pc@[j]@,
                decreases hc.len() - i,
            {
                if !str_eq(hc[i].as_str(), pc[i].as_str()) {
                    proof {
                        let a = hc.deep_view();
                        let b = pc.deep_view();
                        assert(a[i as int] != b[i as int]);
                        if a.is_prefix_of(b) {
                            assert(b.subrange(0, a.len() as int)[i as int] == b[i as int]);
                        }
                    }
                    return owned(path);
                }
                i = i + 1;
            }
            assert(hc.deep_view().is_prefix_of(pc.deep_view())) by {
                assert forall|j: int| 0 <= j < hc.deep_view().len() implies hc.deep_view()[j]
                    == pc.deep_view()[j] by {
                    assert(hc@[j]@ == pc@[j]@);
                }
            }
            let mut rest: Vec<String> = Vec::new();
            let mut k: usize = hc.len();
            while k < pc.len()
                invariant
                    hc@.len() <= k <= pc@.len(),
                    rest.deep_view() == pc.deep_view().subrange(hc@.len() as int, k as int),
                decreases pc.len() - k,
            {
                let ghost b = rest.deep_view();
                rest.push(pc[k].clone());
                assert(rest.deep_view() =~= b.push(pc[k as int]@));
                assert(pc.deep_view().subrange(hc@.len() as int, k + 1) =~= pc.deep_view().subrange(
                    hc@.len() as int,
                    k as int,
                ).push(pc[k as int]@));
                k = k + 1;
            }
            assert(pc.deep_view().subrange(hc@.len() as int, pc@.len() as int) =~= pc.deep_view().skip(
                hc@.len() as int,
            ));
            if rest.len() == 0 {
                owned("~")
            } else {
                let mut r = owned("~/");
                let j = join_strs(&rest, "/");
                push_str(&mut r, j.as_str());
                r
            }
        },
    }
}

/// Shows `path` with the user's home directory abbreviated to `~`.
pub fn format_path(path: &str) -> (r: String)
    ensures
        exists|home: Option<Seq<char>>|
            (home matches Some(h) ==> h.len() > 0) && r@ == display_path(path@, home),
{
    let home = home_dir();
    let r = format_path_with(path, &home);
    let ghost hv = match home {
        Some(h) => Some(h@),
        None => None::<Seq<char>>,
    };
    assert((hv matches Some(h) ==> h.len() > 0) && r@ == display_path(path@, hv));
    r
}

} // verus!
