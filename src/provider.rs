use vstd::prelude::*;
use crate::entity::{Area, Artist};
use crate::query::QueryError;

verus! {

/// Primary identifiers of artist rows, in table order.
pub open spec fn artist_ids(rows: Seq<Artist>) -> Seq<int> {
    rows.map_values(|a: Artist| a.id as int)
}

/// Primary identifiers of area rows, in table order.
pub open spec fn area_ids(rows: Seq<Area>) -> Seq<int> {
    rows.map_values(|a: Area| a.id as int)
}

/// Identifiers strictly increase along the sequence.
pub open spec fn strictly_ascending(ids: Seq<int>) -> bool {
    forall|i: int, j: int| 0 <= i < j < ids.len() ==> ids[i] < ids[j]
}

/// First position of the window `offset, limit` over `n` ordered rows.
pub open spec fn page_start(n: nat, offset: nat) -> nat {
    if offset <= n {
        offset
    } else {
        n
    }
}

/// Position just past the window `offset, limit` over `n` ordered rows.
pub open spec fn page_end(n: nat, offset: nat, limit: nat) -> nat {
    if page_start(n, offset) + limit <= n {
        page_start(n, offset) + limit
    } else {
        n
    }
}

/// The rows that a ranged read with the given offset and limit returns.
pub open spec fn page<T>(rows: Seq<T>, offset: nat, limit: nat) -> Seq<T> {
    rows.subrange(page_start(rows.len(), offset) as int, page_end(rows.len(), offset, limit) as int)
}

/// Computes the bounds of the window `offset, limit` over `n` ordered rows.
pub fn page_bounds(n: usize, offset: u64, limit: u64) -> (r: (usize, usize))
    ensures
        r.0 == page_start(n as nat, offset as nat),
        r.1 == page_end(n as nat, offset as nat, limit as nat),
{
    let start: usize = if offset as u128 <= n as u128 {
        offset as usize
    } else {
        n
    };
    let end: usize = if start as u128 + limit as u128 <= n as u128 {
        (start as u128 + limit as u128) as usize
    } else {
        n
    };
    (start, end)
}

/// An in-memory row provider: the artist and area tables, each ordered by
/// ascending identifier, whether the source answers, and how many requests
/// it has served.
pub struct Snapshot {
    pub artists: Vec<Artist>,
    pub areas: Vec<Area>,
    pub reachable: bool,
    pub calls: u64,
}

/// The request count after one more request.
pub open spec fn next_count(c: u64) -> u64 {
    if c < u64::MAX {
        (c + 1) as u64
    } else {
        c
    }
}

impl Snapshot {
    /// Each table is ordered by strictly ascending identifier.
    pub open spec fn wf(&self) -> bool {
        strictly_ascending(artist_ids(self.artists@)) && strictly_ascending(area_ids(self.areas@))
    }

    /// The tables and reachability are the same in both snapshots.
    pub open spec fn same_data(&self, other: &Snapshot) -> bool {
        self.artists@ == other.artists@ && self.areas@ == other.areas@ && self.reachable
            == other.reachable
    }

    fn record_call(&mut self)
        ensures
            final(self).calls == next_count(old(self).calls),
            final(self).same_data(old(self)),
    {
        if self.calls < u64::MAX {
            self.calls = self.calls + 1;
        }
    }

    /// Point lookup of an artist by primary identifier.
    pub fn find_artist(&mut self, id: i32) -> (r: Result<Option<Artist>, QueryError>)
        ensures
            final(self).calls == next_count(old(self).calls),
            final(self).same_data(old(self)),
            !old(self).reachable ==> r == Err::<Option<Artist>, QueryError>(QueryError::DataSource),
            old(self).reachable ==> (r matches Ok(o) && match o {
                Some(a) => a.id == id && old(self).artists@.contains(a),
                None => forall|k: int|
                    0 <= k < old(self).artists@.len() ==> old(self).artists@[k].id != id,
            }),
    {
        self.record_call();
        if !self.reachable {
            return Err(QueryError::DataSource);
        }
        let mut i: usize = 0;
        while i < self.artists.len()
            invariant
                i <= self.artists@.len(),
                self.calls == next_count(old(self).calls),
                self.same_data(old(self)),
                self.reachable,
                forall|k: int| 0 <= k < i ==> self.artists@[k].id != id,
            decreases self.artists@.len() - i,
        {
            if self.artists[i].id == id {
                let a = self.artists[i].duplicate();
                assert(self.artists@[i as int] == a);
                return Ok(Some(a));
            }
            i = i + 1;
        }
        Ok(None)
    }

    /// Point lookup of an area by primary identifier.
    pub fn find_area(&mut self, id: i32) -> (r: Result<Option<Area>, QueryError>)
        ensures
            final(self).calls == next_count(old(self).calls),
            final(self).same_data(old(self)),
            !old(self).reachable ==> r == Err::<Option<Area>, QueryError>(QueryError::DataSource),
            old(self).reachable ==> (r matches Ok(o) && match o {
                Some(a) => a.id == id && old(self).areas@.contains(a),
                None => forall|k: int|
                    0 <= k < old(self).areas@.len() ==> old(self).areas@[k].id != id,
            }),
    {
        self.record_call();
        if !self.reachable {
            return Err(QueryError::DataSource);
        }
        let mut i: usize = 0;
        while i < self.areas.len()
            invariant
                i <= self.areas@.len(),
                self.calls == next_count(old(self).calls),
                self.same_data(old(self)),
                self.reachable,
                forall|k: int| 0 <= k < i ==> self.areas@[k].id != id,
            decreases self.areas@.len() - i,
        {
            if self.areas[i].id == id {
                let a = self.areas[i].duplicate();
                assert(self.areas@[i as int] == a);
                return Ok(Some(a));
            }
            i = i + 1;
        }
        Ok(None)
    }

    /// Ranged read of artists in ascending identifier order.
    pub fn find_artists(&mut self, offset: u64, limit: u64) -> (r: Result<Vec<Artist>, QueryError>)
        ensures
            final(self).calls == next_count(old(self).calls),
            final(self).same_data(old(self)),
            !old(self).reachable ==> r == Err::<Vec<Artist>, QueryError>(QueryError::DataSource),
            old(self).reachable ==> (r matches Ok(v) && v@ == page(
                old(self).artists@,
                offset as nat,
                limit as nat,
            )),
    {
        self.record_call();
        if !self.reachable {
            return Err(QueryError::DataSource);
        }
        let (start, end) = page_bounds(self.artists.len(), offset, limit);
        let mut out: Vec<Artist> = Vec::new();
        let mut i: usize = start;
        while i < end
            invariant
                start <= i <= end <= self.artists@.len(),
                self.calls == next_count(old(self).calls),
                self.same_data(old(self)),
                start == page_start(self.artists@.len(), offset as nat),
                end == page_end(self.artists@.len(), offset as nat, limit as nat),
                out@ == self.artists@.subrange(start as int, i as int),
            decreases end - i,
        {
            out.push(self.artists[i].duplicate());
            assert(self.artists@.subrange(start as int, i + 1) == self.artists@.subrange(
                start as int,
                i as int,
            ).push(self.artists@[i as int]));
            i = i + 1;
        }
        Ok(out)
    }

    /// Ranged read of areas in ascending identifier order.
    pub fn find_areas(&mut self, offset: u64, limit: u64) -> (r: Result<Vec<Area>, QueryError>)
        ensures
            final(self).calls == next_count(old(self).calls),
            final(self).same_data(old(self)),
            !old(self).reachable ==> r == Err::<Vec<Area>, QueryError>(QueryError::DataSource),
            old(self).reachable ==> (r matches Ok(v) && v@ == page(
                old(self).areas@,
                offset as nat,
                limit as nat,
            )),
    {
        self.record_call();
        if !self.reachable {
            return Err(QueryError::DataSource);
        }
        let (start, end) = page_bounds(self.areas.len(), offset, limit);
        let mut out: Vec<Area> = Vec::new();
        let mut i: usize = start;
        while i < end
            invariant
                start <= i <= end <= self.areas@.len(),
                self.calls == next_count(old(self).calls),
                self.same_data(old(self)),
                start == page_start(self.areas@.len(), offset as nat),
                end == page_end(self.areas@.len(), offset as nat, limit as nat),
                out@ == self.areas@.subrange(start as int, i as int),
            decreases end - i,
        {
            out.push(self.areas[i].duplicate());
            assert(self.areas@.subrange(start as int, i + 1) == self.areas@.subrange(
                start as int,
                i as int,
            ).push(self.areas@[i as int]));
            i = i + 1;
        }
        Ok(out)
    }

    /// Number of artist rows, without materialising any.
    pub fn count_artists(&mut self) -> (r: Result<u64, QueryError>)
        ensures
            final(self).calls == next_count(old(self).calls),
            final(self).same_data(old(self)),
            !old(self).reachable ==> r == Err::<u64, QueryError>(QueryError::DataSource),
            old(self).reachable ==> (r matches Ok(c) && c == old(self).artists@.len()),
    {
        self.record_call();
        if !self.reachable {
            return Err(QueryError::DataSource);
        }
        Ok(self.artists.len() as u64)
    }

    /// Health probe: whether the source answers.
    pub fn ping(&mut self) -> (r: bool)
        ensures
            final(self).calls == next_count(old(self).calls),
            final(self).same_data(old(self)),
            r == old(self).reachable,
    {
        self.record_call();
        self.reachable
    }
}

/// A read of `limit` rows from `offset` over `n` rows returns
/// `min(limit, max(0, n - offset))` rows.
pub proof fn lemma_page_len<T>(rows: Seq<T>, offset: nat, limit: nat)
    ensures
        page(rows, offset, limit).len() == (if offset >= rows.len() {
            0
        } else if limit <= rows.len() - offset {
            limit as int
        } else {
            rows.len() - offset
        }),
{
}

/// A read of artists keeps ascending identifier order.
pub proof fn lemma_page_ascending(rows: Seq<Artist>, offset: nat, limit: nat)
    requires
        strictly_ascending(artist_ids(rows)),
    ensures
        strictly_ascending(artist_ids(page(rows, offset, limit))),
{
    let p = page(rows, offset, limit);
    let s = page_start(rows.len(), offset) as int;
    assert forall|i: int, j: int| 0 <= i < j < artist_ids(p).len() implies artist_ids(p)[i]
        < artist_ids(p)[j] by {
        assert(artist_ids(p)[i] == artist_ids(rows)[s + i]);
        assert(artist_ids(p)[j] == artist_ids(rows)[s + j]);
    }
}

/// Two reads of `limit` artists whose offsets differ by at least `limit`
/// share no row identifier.
pub proof fn lemma_pages_disjoint(rows: Seq<Artist>, o1: nat, o2: nat, limit: nat)
    requires
        strictly_ascending(artist_ids(rows)),
        o1 < o2,
        o2 - o1 >= limit,
    ensures
        forall|i: int, j: int|
            0 <= i < page(rows, o1, limit).len() && 0 <= j < page(rows, o2, limit).len() ==> (
            #[trigger] page(rows, o1, limit)[i]).id != (#[trigger] page(rows, o2, limit)[j]).id,
{
    let p1 = page(rows, o1, limit);
    let p2 = page(rows, o2, limit);
    let s1 = page_start(rows.len(), o1) as int;
    let s2 = page_start(rows.len(), o2) as int;
    assert forall|i: int, j: int| 0 <= i < p1.len() && 0 <= j < p2.len() implies (
    #[trigger] p1[i]).id != (#[trigger] p2[j]).id by {
        assert(p1[i] == rows[s1 + i]);
        assert(p2[j] == rows[s2 + j]);
        assert(artist_ids(rows)[s1 + i] < artist_ids(rows)[s2 + j]);
    }
}

/// The count of rows equals the length of a read from offset zero whose
/// limit covers every row.
pub proof fn lemma_count_is_full_page<T>(rows: Seq<T>, limit: nat)
    requires
        limit >= rows.len(),
    ensures
        page(rows, 0, limit).len() == rows.len(),
        page(rows, 0, limit) == rows,
{
    assert(rows.subrange(0, rows.len() as int) == rows);
}

} // verus!
