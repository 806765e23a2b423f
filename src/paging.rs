use vstd::prelude::*;
use crate::error::EngineError;

verus! {

/// The page of a listing that a request asks for.
#[derive(Debug, Clone, Copy, PartialEq, Eq, Structural)]
pub struct Pagination {
    /// The page, counted from 1.
    pub page: u32,
    /// How many rows a page holds.
    pub limit: u32,
    /// How many rows come before the page.
    pub offset: u64,
}

/// The page shown where none is asked for.
pub const DEFAULT_PAGE: u32 = 1;

/// The page size used where none is asked for.
pub const DEFAULT_LIMIT: u32 = 10;

impl Pagination {
    /// Reads the page and page size of a request, taking page 1 and 10 rows
    /// where they are absent; page 0 is rejected.
    pub fn from_query(page: Option<u32>, limit: Option<u32>) -> (r: Result<Pagination, EngineError>)
        ensures
            r is Err <==> page == Some(0u32),
            r is Err ==> r == Err::<Pagination, EngineError>(EngineError::InvalidArgument),
            r is Ok ==> {
                let p = r->Ok_0;
                &&& p.page == (match page {
                    Some(x) => x,
                    None => DEFAULT_PAGE,
                })
                &&& p.limit == (match limit {
                    Some(x) => x,
                    None => DEFAULT_LIMIT,
                })
                &&& p.offset == (p.page - 1) * p.limit
            },
    {
        let page = match page {
            Some(x) => x,
            None => DEFAULT_PAGE,
        };
        let limit = match limit {
            Some(x) => x,
            None => DEFAULT_LIMIT,
        };
        if page == 0 {
            return Err(EngineError::InvalidArgument);
        }
        let before = (page - 1) as u64;
        assert(before * (limit as u64) <= u32::MAX as u64 * u32::MAX as u64) by (nonlinear_arith)
            requires
                before <= u32::MAX,
                limit <= u32::MAX,
        ;
        let offset = before * (limit as u64);
        Ok(Pagination { page, limit, offset })
    }

    /// The rows of a listing of `total` rows that fall on this page, as a
    /// range of positions.
    pub fn window(&self, total: usize) -> (r: (usize, usize))
        ensures
            r.0 == if self.offset < total { self.offset as int } else { total as int },
            r.1 == if self.offset + self.limit < total { self.offset + self.limit } else { total as int },
            r.0 <= r.1 <= total,
    {
        let start: usize = if self.offset < total as u64 {
            self.offset as usize
        } else {
            total
        };
        let end: usize = if self.offset as u128 + (self.limit as u128) < total as u128 {
            (self.offset + self.limit as u64) as usize
        } else {
            total
        };
        (start, end)
    }
}

} // verus!
