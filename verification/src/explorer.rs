//! Construction of explorer GraphQL queries, and the shapes their answers
//! are read into.

use vstd::prelude::*;
use vstd::string::StringExecFns;

verus! {

/// A GraphQL query document, ready to be sent to the explorer API.
#[derive(Debug)]
pub struct GraphQLQuery {
    pub query: String,
}

impl View for GraphQLQuery {
    type V = Seq<char>;

    open spec fn view(&self) -> Seq<char> {
        self.query@
    }
}

/// Mathematical model of a stake pool registration answer.
pub ghost struct ExplorerPoolRegistrationView {
    pub id: Seq<char>,
}

/// The registration part of a stake pool answer: the registering pool's
/// identifier.
#[derive(Debug)]
pub struct ExplorerPoolRegistration {
    pub id: String,
}

impl View for ExplorerPoolRegistration {
    type V = ExplorerPoolRegistrationView;

    open spec fn view(&self) -> ExplorerPoolRegistrationView {
        ExplorerPoolRegistrationView { id: self.id@ }
    }
}

/// Mathematical model of a stake pool retirement answer.
pub ghost struct ExplorerPoolRetirementView {
    pub id: Seq<char>,
}

/// The retirement part of a stake pool answer: the retired pool's
/// identifier.
#[derive(Debug)]
pub struct ExplorerPoolRetirement {
    pub id: String,
}

impl View for ExplorerPoolRetirement {
    type V = ExplorerPoolRetirementView;

    open spec fn view(&self) -> ExplorerPoolRetirementView {
        ExplorerPoolRetirementView { id: self.id@ }
    }
}

/// Mathematical model of a whole stake pool answer.
pub ghost struct ExplorerStakePoolView {
    pub id: Seq<char>,
    pub registration: ExplorerPoolRegistrationView,
    pub retirement: Option<ExplorerPoolRetirementView>,
}

/// A stake pool as the explorer reports it: its identifier, its
/// registration, and its retirement if it has retired.
#[derive(Debug)]
pub struct ExplorerStakePool {
    pub id: String,
    pub registration: ExplorerPoolRegistration,
    pub retirement: Option<ExplorerPoolRetirement>,
}

impl View for ExplorerStakePool {
    type V = ExplorerStakePoolView;

    open spec fn view(&self) -> ExplorerStakePoolView {
        ExplorerStakePoolView {
            id: self.id@,
            registration: self.registration@,
            retirement: match self.retirement {
                Some(r) => Some(r@),
                None => None,
            },
        }
    }
}

/// The text of the stake pool query before the pool identifier.
pub const STAKE_POOL_QUERY_HEAD: &'static str = "{ stakePool(id: \"";

/// The text of the stake pool query after the pool identifier.
pub const STAKE_POOL_QUERY_TAIL: &'static str =
    "\") { id registration { pool { id } } retirement { poolId } } }";

impl ExplorerStakePool {
    /// The query that asks the explorer for the stake pool with the given
    /// identifier: the fixed query text around the identifier.
    pub fn query_by_id(pool_id: &str) -> (r: GraphQLQuery)
        ensures
            r@ == STAKE_POOL_QUERY_HEAD@ + pool_id@ + STAKE_POOL_QUERY_TAIL@,
    {
        let mut query = STAKE_POOL_QUERY_HEAD.to_owned();
        query.append(pool_id);
        query.append(STAKE_POOL_QUERY_TAIL);
        GraphQLQuery { query }
    }
}

} // verus!
