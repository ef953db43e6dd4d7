use vstd::prelude::*;

verus! {

/// How a survey form takes answers: open to everyone or not, and once or
/// more than once per person.
#[derive(Debug, Clone, Copy, PartialEq, Eq, Structural)]
pub struct Type {
    pub public: bool,
    pub multiple: bool,
}

/// The tables that hold a survey form and what belongs to it.
#[derive(Debug, Clone, Copy, PartialEq, Eq, Structural)]
pub enum Table {
    /// The questions of a form.
    Fields,
    /// The answers given to a form.
    Responses,
    /// The history of a form.
    Logs,
    /// The forms themselves.
    Forms,
}

/// The order in which deleting a form clears the tables: first its fields,
/// responses and logs, and the form itself last, so that nothing is left
/// referring to a form that is gone.
pub fn deletion_order() -> (r: Vec<Table>)
    ensures
        r@ == seq![Table::Fields, Table::Responses, Table::Logs, Table::Forms],
{
    let mut order: Vec<Table> = Vec::new();
    order.push(Table::Fields);
    order.push(Table::Responses);
    order.push(Table::Logs);
    order.push(Table::Forms);
    proof {
        assert(order@ =~= seq![Table::Fields, Table::Responses, Table::Logs, Table::Forms]);
    }
    order
}

} // verus!
