use vstd::prelude::*;
use super::component::ComponentType;

verus! {

/// A stateless per-row update together with the component types it works on.
///
/// The update is a pure function of the row it is handed. Four descriptions
/// say what it does: `required` lists the types of a row, `fails` tells the
/// rows on which the update reports a failure, `cause` the message it then
/// gives, and `updated` the row that it leaves behind otherwise. A system
/// states its own descriptions; the ones given here are those of a system that
/// requires nothing, changes nothing and never fails.
pub trait System<V> {
    /// The component types the update reads and writes, in the order in which
    /// it expects them in a row.
    open spec fn required(&self) -> Seq<ComponentType> {
        Seq::empty()
    }

    /// Whether the update reports a failure on `row`.
    open spec fn fails(&self, row: Seq<V>) -> bool {
        false
    }

    /// The message of the failure that the update reports on `row`.
    open spec fn cause(&self, row: Seq<V>) -> Seq<char> {
        Seq::empty()
    }

    /// The row that a successful update leaves in place of `row`.
    open spec fn updated(&self, row: Seq<V>) -> Seq<V> {
        row
    }

    /// Lists the required component types.
    fn requirement(&self) -> (types: Vec<ComponentType>)
        ensures
            types@ == self.required(),
    ;

    /// Updates one row in place, or reports why it cannot.
    fn update(&self, row: &mut Vec<V>) -> (outcome: Result<(), String>)
        requires
            old(row)@.len() == self.required().len(),
        ensures
            final(row)@.len() == old(row)@.len(),
            outcome is Err <==> self.fails(old(row)@),
            outcome is Ok ==> final(row)@ == self.updated(old(row)@),
            outcome matches Err(message) ==> message@ == self.cause(old(row)@),
    ;
}

} // verus!
