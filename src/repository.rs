//! Query arguments of the bot's stores.
use vstd::prelude::*;

verus! {

/// A condition on a column: equal to a value, or among the values of a list.
#[derive(Clone, Copy)]
pub struct WhereValue<'a, T> {
    pub eq: Option<T>,
    pub in_array: Option<&'a Vec<T>>,
}

#[derive(Debug, Clone, Copy, PartialEq, Eq, Structural)]
pub enum Order {
    ASC,
    DESC,
}

impl Order {
    /// The SQL keyword of the order.
    pub fn as_str(&self) -> (r: &'static str)
        ensures
            r@ == match *self {
                Order::ASC => "ASC"@,
                Order::DESC => "DESC"@,
            },
    {
        match self {
            Order::ASC => "ASC",
            Order::DESC => "DESC",
        }
    }
}

#[derive(Clone, Default)]
pub struct FindAllArgs {
    pub limit: Option<i64>,
    pub order_by: Option<(String, Order)>,
}

#[derive(Default)]
pub struct FindOneArgs {
    pub order_by: Option<(String, Order)>,
}

impl From<FindOneArgs> for FindAllArgs {
    /// One result at most, in the order asked for.
    fn from(args: FindOneArgs) -> (r: FindAllArgs) {
        FindAllArgs { limit: Some(1), order_by: args.order_by }
    }
}

impl vstd::std_specs::convert::FromSpecImpl<FindOneArgs> for FindAllArgs {
    open spec fn obeys_from_spec() -> bool {
        true
    }

    open spec fn from_spec(args: FindOneArgs) -> FindAllArgs {
        FindAllArgs { limit: Some(1), order_by: args.order_by }
    }
}

} // verus!
