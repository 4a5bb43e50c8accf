//! SELECT statement text for the list pages.
use vstd::prelude::*;
use crate::text::{dec, decimal};

verus! {

/// A SELECT statement: fields, table, and optional WHERE, ORDER BY, LIMIT and
/// OFFSET clauses, in that order.
pub struct SelectStmt<'a> {
    pub table: &'a str,
    pub fields: &'a str,
    pub condition: Option<&'a str>,
    pub order: Option<&'a str>,
    pub limit: Option<u8>,
    pub offset: Option<u32>,
}

pub open spec fn opt_clause(keyword: Seq<char>, v: Option<Seq<char>>) -> Seq<char> {
    match v {
        Some(s) => keyword + s,
        None => Seq::empty(),
    }
}

pub open spec fn opt_str(v: Option<&str>) -> Option<Seq<char>> {
    match v {
        Some(s) => Some(s@),
        None => None,
    }
}

pub open spec fn opt_num(v: Option<nat>) -> Option<Seq<char>> {
    match v {
        Some(n) => Some(dec(n)),
        None => None,
    }
}

/// Text of a statement.
pub open spec fn select_sql(s: SelectStmt) -> Seq<char> {
    "SELECT "@ + s.fields@ + " FROM "@ + s.table@ + opt_clause(" WHERE "@, opt_str(s.condition))
        + opt_clause(" ORDER BY "@, opt_str(s.order)) + opt_clause(
        " LIMIT "@,
        opt_num(
            match s.limit {
                Some(l) => Some(l as nat),
                None => None,
            },
        ),
    ) + opt_clause(
        " OFFSET "@,
        opt_num(
            match s.offset {
                Some(o) => Some(o as nat),
                None => None,
            },
        ),
    )
}

fn push_clause(out: &mut String, keyword: &str, v: Option<&str>)
    ensures
        final(out)@ == old(out)@ + opt_clause(keyword@, opt_str(v)),
{
    match v {
        Some(s) => {
            out.append(keyword);
            out.append(s);
        },
        None => {
            assert(old(out)@ + Seq::<char>::empty() =~= old(out)@);
        },
    }
}

fn push_number(out: &mut String, keyword: &str, v: Option<u64>)
    ensures
        final(out)@ == old(out)@ + opt_clause(
            keyword@,
            opt_num(
                match v {
                    Some(n) => Some(n as nat),
                    None => None,
                },
            ),
        ),
{
    match v {
        Some(n) => {
            out.append(keyword);
            let d = decimal(n);
            out.append(d.as_str());
        },
        None => {
            assert(old(out)@ + Seq::<char>::empty() =~= old(out)@);
        },
    }
}

impl<'a> SelectStmt<'a> {
    fn empty() -> (r: Self)
        ensures
            r.table@ == Seq::<char>::empty(),
            r.fields@ == "*"@,
            r.condition is None,
            r.order is None,
            r.limit is None,
            r.offset is None,
    {
        proof {
            reveal_strlit("");
        }
        SelectStmt { table: "", fields: "*", condition: None, order: None, limit: None, offset: None }
    }

    /// A statement selecting `*` from no table yet, with no clauses.
    pub fn builder() -> (r: Self)
        ensures
            r.table@ == Seq::<char>::empty(),
            r.fields@ == "*"@,
            r.condition is None,
            r.order is None,
            r.limit is None,
            r.offset is None,
    {
        Self::empty()
    }

    /// With table `table`.
    pub fn table(self, table: &'a str) -> (r: Self)
        ensures
            r == (SelectStmt { table, ..self }),
    {
        SelectStmt { table, ..self }
    }

    /// With field list `fields`.
    pub fn fields(self, fields: &'a str) -> (r: Self)
        ensures
            r == (SelectStmt { fields, ..self }),
    {
        SelectStmt { fields, ..self }
    }

    /// With WHERE condition `condition`, or none.
    pub fn condition(self, condition: Option<&'a str>) -> (r: Self)
        ensures
            r == (SelectStmt { condition, ..self }),
    {
        SelectStmt { condition, ..self }
    }

    /// With ORDER BY `order`, or none.
    pub fn order(self, order: Option<&'a str>) -> (r: Self)
        ensures
            r == (SelectStmt { order, ..self }),
    {
        SelectStmt { order, ..self }
    }

    /// With LIMIT `limit`, or none.
    pub fn limit(self, limit: Option<u8>) -> (r: Self)
        ensures
            r == (SelectStmt { limit, ..self }),
    {
        SelectStmt { limit, ..self }
    }

    /// With OFFSET `offset`, or none.
    pub fn offset(self, offset: Option<u32>) -> (r: Self)
        ensures
            r == (SelectStmt { offset, ..self }),
    {
        SelectStmt { offset, ..self }
    }

    /// The statement's text.
    pub fn build(&self) -> (r: String)
        ensures
            r@ == select_sql(*self),
    {
        self.str()
    }

    /// The statement's text.
    pub fn str(&self) -> (r: String)
        ensures
            r@ == select_sql(*self),
    {
        let mut out = "SELECT ".to_string();
        out.append(self.fields);
        out.append(" FROM ");
        out.append(self.table);
        push_clause(&mut out, " WHERE ", self.condition);
        push_clause(&mut out, " ORDER BY ", self.order);
        let limit: Option<u64> = match self.limit {
            Some(l) => Some(l as u64),
            None => None,
        };
        push_number(&mut out, " LIMIT ", limit);
        let offset: Option<u64> = match self.offset {
            Some(o) => Some(o as u64),
            None => None,
        };
        push_number(&mut out, " OFFSET ", offset);
        out
    }
}

} // verus!
