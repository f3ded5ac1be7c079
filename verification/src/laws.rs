//! What holds of records and handles whatever the inputs.

use crate::c_string::{
    lemma_terminator_exists, lemma_text_before, terminates_at, terminator_index,
};
use crate::record::{Handle, RecordView};
use vstd::prelude::*;

verus! {

/// Reading back what was stored. A name that holds no zero byte, lent with
/// its terminator and with whatever the caller's memory holds after it,
/// makes a well-formed record whose name is that name, byte for byte, and
/// whose age is the age given.
pub proof fn lemma_round_trip(name: Seq<u8>, rest: Seq<u8>, age: i32)
    requires
        forall|i: int| 0 <= i < name.len() ==> name[i] != 0,
    ensures
        ({
            let record = RecordView { buffer: name.push(0) + rest, age };
            &&& record.well_formed()
            &&& record.name() == name
            &&& record.age == age
        }),
{
    let buffer = name.push(0) + rest;
    let n = name.len() as int;
    assert(buffer[n] == 0);
    assert forall|i: int| 0 <= i < n implies buffer[i] != 0 by {
        assert(buffer[i] == name[i]);
    }
    assert(terminates_at(buffer, n));
    lemma_text_before(buffer, n);
    assert(buffer.take(n) =~= name);
}

/// The name of a well-formed record is the part of its buffer that stands
/// before the terminator: a prefix of the buffer that holds no zero byte and
/// is followed by one.
pub proof fn lemma_name_ends_at_terminator(record: RecordView)
    requires
        record.well_formed(),
    ensures
        record.name().len() < record.buffer.len(),
        record.name() == record.buffer.take(record.name().len() as int),
        record.buffer[record.name().len() as int] == 0,
        forall|i: int| 0 <= i < record.name().len() ==> record.name()[i] != 0,
{
    lemma_terminator_exists(record.buffer);
    let n = terminator_index(record.buffer);
    assert(record.name().len() == n);
    assert forall|i: int| 0 <= i < record.name().len() implies record.name()[i] != 0 by {
        assert(record.name()[i] == record.buffer[i]);
    }
}

/// The handles as they stand once the one at `index` has been released: that
/// one is null, as `free_rust_struct` leaves it.
pub open spec fn release_at<'a>(handles: Seq<Handle<'a>>, index: int) -> Seq<Handle<'a>> {
    handles.update(index, None)
}

/// The handles as they stand once those at the indices of `order` have been
/// released, one after the other.
pub open spec fn release_in_order<'a>(handles: Seq<Handle<'a>>, order: Seq<int>) -> Seq<
    Handle<'a>,
>
    decreases order.len(),
{
    if order.len() == 0 {
        handles
    } else {
        release_in_order(release_at(handles, order[0]), order.drop_first())
    }
}

/// Releasing a handle a second time changes nothing: the first release left
/// it null, and there is no record left to give back.
pub proof fn lemma_release_once<'a>(handles: Seq<Handle<'a>>, index: int)
    requires
        0 <= index < handles.len(),
    ensures
        release_at(handles, index)[index] is None,
        release_at(release_at(handles, index), index) == release_at(handles, index),
{
    assert(release_at(release_at(handles, index), index) =~= release_at(handles, index));
}

/// Records are independent. Whatever the order in which some of the handles
/// are released, each released handle ends null and every other handle is
/// what it was before: it owns the same record, with the same name and age.
pub proof fn lemma_release_independent<'a>(handles: Seq<Handle<'a>>, order: Seq<int>, j: int)
    requires
        forall|k: int| 0 <= k < order.len() ==> 0 <= #[trigger] order[k] < handles.len(),
        0 <= j < handles.len(),
    ensures
        release_in_order(handles, order).len() == handles.len(),
        order.contains(j) ==> release_in_order(handles, order)[j] is None,
        !order.contains(j) ==> release_in_order(handles, order)[j] == handles[j],
    decreases order.len(),
{
    if order.len() > 0 {
        let rest = order.drop_first();
        let next = release_at(handles, order[0]);
        assert forall|k: int| 0 <= k < rest.len() implies 0 <= #[trigger] rest[k] < next.len() by {
            assert(rest[k] == order[k + 1]);
        }
        lemma_release_independent(next, rest, j);
        if order.contains(j) {
            let k = choose|k: int| 0 <= k < order.len() && order[k] == j;
            if k > 0 {
                assert(rest[k - 1] == j);
            }
        } else {
            assert(order[0] != j);
            if rest.contains(j) {
                let k = choose|k: int| 0 <= k < rest.len() && rest[k] == j;
                assert(order[k + 1] == j);
            }
        }
    }
}

} // verus!
