//! Links between conversations: the parent and the referenced tasks a new
//! task is linked to, and when a link between two tasks is refused.
//!
//! Looking tasks up and storing links are the caller's business: it hands
//! in whether each task exists.
use vstd::prelude::*;

use crate::text::{append_str, chars_of, copy_string, lit, opt_view, seq_eq, string_of, trim, trimmed, views};

verus! {

/// The options a new task may come with.
#[derive(Debug)]
pub struct CreateTaskOptions {
    pub parent_task_id: Option<String>,
    pub reference_task_ids: Option<Vec<String>>,
}

/// The parent a new task names; a blank one names none.
pub open spec fn parent_of(options: Option<CreateTaskOptions>) -> Option<Seq<char>> {
    match options {
        Some(o) => match o.parent_task_id {
            Some(p) => if trim(p@).len() > 0 {
                Some(p@)
            } else {
                None
            },
            None => None,
        },
        None => None,
    }
}

pub fn requested_parent(options: &Option<CreateTaskOptions>) -> (r: Option<String>)
    ensures
        opt_view(r) == parent_of(*options),
{
    match options {
        Some(o) => match &o.parent_task_id {
            Some(p) => if trimmed(p.as_str()).len() > 0 {
                Some(copy_string(p))
            } else {
                None
            },
            None => None,
        },
        None => None,
    }
}

/// A named parent must exist.
pub fn parent_check(parent: &Option<String>, parent_exists: bool) -> (r: Result<(), String>)
    ensures
        match *parent {
            Some(p) => if parent_exists {
                r is Ok
            } else {
                r matches Err(e) && e@ == "parent task not found: "@ + p@
            },
            None => r is Ok,
        },
{
    match parent {
        Some(p) => if parent_exists {
            Ok(())
        } else {
            let mut m = chars_of("parent task not found: ");
            append_str(&mut m, p.as_str());
            Err(string_of(&m))
        },
        None => Ok(()),
    }
}

/// The referenced tasks that are linked: those that exist and are not the
/// new task itself, in order.
pub open spec fn kept_references(new_id: Seq<char>, refs: Seq<Seq<char>>, exists: Seq<bool>) -> Seq<Seq<char>>
    decreases refs.len(),
{
    if refs.len() == 0 {
        Seq::empty()
    } else {
        let init = kept_references(new_id, refs.drop_last(), exists.take(refs.len() - 1));
        if refs.last() != new_id && exists[refs.len() - 1] {
            init.push(refs.last())
        } else {
            init
        }
    }
}

pub open spec fn option_seq(o: Option<Seq<char>>) -> Seq<Seq<char>> {
    match o {
        Some(x) => seq![x],
        None => Seq::empty(),
    }
}

/// The tasks a new task is linked to, in the order the links are made: its
/// parent, then the kept references (see `kept_references`);
/// `reference_exists` says of each reference whether that task exists.
pub fn link_targets(new_id: &str, parent: &Option<String>, references: &Vec<String>, reference_exists: &Vec<bool>) -> (r: Vec<String>)
    requires
        references@.len() == reference_exists@.len(),
    ensures
        views(r@) == option_seq(opt_view(*parent)) + kept_references(new_id@, views(references@), reference_exists@),
{
    let ghost rv = views(references@);
    let ghost ev = reference_exists@;
    let mut out: Vec<String> = Vec::new();
    if let Some(p) = parent {
        out.push(copy_string(p));
    }
    let ghost head = views(out@);
    assert(head =~= option_seq(opt_view(*parent)));
    let id = chars_of(new_id);
    let mut i: usize = 0;
    assert(rv.take(0) =~= Seq::<Seq<char>>::empty());
    assert(head + Seq::<Seq<char>>::empty() =~= head);
    while i < references.len()
        invariant
            i <= references.len(),
            references@.len() == reference_exists@.len(),
            rv == views(references@),
            ev == reference_exists@,
            id@ == new_id@,
            views(out@) == head + kept_references(new_id@, rv.take(i as int), ev.take(i as int)),
        decreases references.len() - i,
    {
        assert(rv.take(i + 1).drop_last() =~= rv.take(i as int));
        assert(ev.take(i + 1).take(i as int) =~= ev.take(i as int));
        let ghost before = views(out@);
        if !seq_eq(&chars_of(references[i].as_str()), &id) && reference_exists[i] {
            out.push(copy_string(&references[i]));
            assert(views(out@) =~= before.push(rv[i as int]));
        }
        proof {
            let k = kept_references(new_id@, rv.take(i as int), ev.take(i as int));
            assert((head + k).push(rv[i as int]) =~= head + k.push(rv[i as int]));
        }
        i += 1;
    }
    assert(rv.take(references.len() as int) =~= rv);
    assert(ev.take(references.len() as int) =~= ev);
    out
}

/// Why a link between two tasks is refused, if it is: a task cannot be
/// linked to itself, and both must exist.
pub fn link_check(task_id: &str, related_task_id: &str, task_exists: bool, related_exists: bool) -> (r: Result<(), String>)
    ensures
        task_id@ == related_task_id@ ==> (r matches Err(e) && e@ == "cannot link a conversation to itself"@),
        task_id@ != related_task_id@ && !task_exists ==> (r matches Err(e) && e@ == "task not found: "@ + task_id@),
        task_id@ != related_task_id@ && task_exists && !related_exists ==> (r matches Err(e) && e@ == "task not found: "@
            + related_task_id@),
        task_id@ != related_task_id@ && task_exists && related_exists ==> r is Ok,
{
    if seq_eq(&chars_of(task_id), &chars_of(related_task_id)) {
        return Err(lit("cannot link a conversation to itself"));
    }
    if !task_exists {
        let mut m = chars_of("task not found: ");
        append_str(&mut m, task_id);
        return Err(string_of(&m));
    }
    if !related_exists {
        let mut m = chars_of("task not found: ");
        append_str(&mut m, related_task_id);
        return Err(string_of(&m));
    }
    Ok(())
}

/// A new task is never linked to itself through its references, and every
/// reference it is linked to exists.
pub proof fn law_no_self_reference(new_id: Seq<char>, refs: Seq<Seq<char>>, exists: Seq<bool>)
    requires
        refs.len() == exists.len(),
    ensures
        !kept_references(new_id, refs, exists).contains(new_id),
        forall|t: Seq<char>| #[trigger] kept_references(new_id, refs, exists).contains(t) ==> exists|i: int|
            0 <= i < refs.len() && refs[i] == t && exists[i],
    decreases refs.len(),
{
    if refs.len() > 0 {
        let n = refs.len() - 1;
        law_no_self_reference(new_id, refs.drop_last(), exists.take(n));
        let init = kept_references(new_id, refs.drop_last(), exists.take(n));
        assert forall|t: Seq<char>| #[trigger] kept_references(new_id, refs, exists).contains(t) implies exists|i: int|
            0 <= i < refs.len() && refs[i] == t && exists[i] by {
            if init.contains(t) {
                let i = choose|i: int| 0 <= i < n && refs.drop_last()[i] == t && exists.take(n)[i];
                assert(refs[i] == t && exists[i]);
            } else {
                assert(refs[n] == t && exists[n]);
            }
        }
    }
}

} // verus!
