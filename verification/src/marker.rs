//! The comment that announces a file's actions to whoever reads the output.
use crate::ast::strings_view;
use vstd::prelude::*;
use vstd::string::StringExecFns;

verus! {

/// The names, separated by commas and nothing else.
pub open spec fn joined(names: Seq<Seq<char>>) -> Seq<char>
    decreases names.len(),
{
    if names.len() == 0 {
        seq![]
    } else if names.len() == 1 {
        names[0]
    } else {
        joined(names.drop_last()) + ","@ + names.last()
    }
}

/// The body of the marker comment for the given action names.
pub open spec fn marker_text(names: Seq<Seq<char>>) -> Seq<char> {
    " __next_internal_action_entry_do_not_use__ "@ + joined(names) + " "@
}

pub fn join_names(names: &Vec<String>) -> (r: String)
    ensures
        r@ == joined(strings_view(names@)),
{
    let mut out = String::new();
    let ghost all = strings_view(names@);
    let mut i: usize = 0;
    assert(all.take(0) =~= Seq::<Seq<char>>::empty());
    while i < names.len()
        invariant
            i <= names.len(),
            all == strings_view(names@),
            out@ == joined(all.take(i as int)),
        decreases names.len() - i,
    {
        proof {
            let next = all.take(i + 1);
            assert(next.drop_last() =~= all.take(i as int));
            assert(next.last() == names@[i as int]@);
            if i == 0 {
                assert(Seq::<char>::empty() + names@[0]@ =~= names@[0]@);
            }
        }
        if i > 0 {
            out.append(",");
        }
        out.append(names[i].as_str());
        i += 1;
    }
    assert(all.take(i as int) =~= all);
    out
}

/// The body of the marker comment for the given action names, in discovery order.
pub fn marker_comment(names: &Vec<String>) -> (r: String)
    ensures
        r@ == marker_text(strings_view(names@)),
{
    let mut out = String::from_str(" __next_internal_action_entry_do_not_use__ ");
    let list = join_names(names);
    out.append(list.as_str());
    out.append(" ");
    out
}

} // verus!
