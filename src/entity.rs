use vstd::prelude::*;

verus! {

/// A row of the artist table.
pub struct Artist {
    pub id: i32,
    pub gid: String,
    pub name: String,
    pub sort_name: String,
    pub comment: String,
    pub artist_type: Option<i32>,
    pub area: Option<i32>,
    pub gender: Option<i32>,
    pub begin_date_year: Option<i16>,
    pub end_date_year: Option<i16>,
    pub ended: bool,
}

/// A row of the area table.
pub struct Area {
    pub id: i32,
    pub gid: String,
    pub name: String,
    pub area_type: Option<i32>,
}

/// A row of the table of releases whose artist data awaits an update.
#[derive(Clone, Copy, Debug, PartialEq, Eq)]
pub struct Model {
    pub release: i32,
}

impl Artist {
    /// An independent copy of the row.
    pub fn duplicate(&self) -> (r: Artist)
        ensures
            r == *self,
    {
        Artist {
            id: self.id,
            gid: self.gid.clone(),
            name: self.name.clone(),
            sort_name: self.sort_name.clone(),
            comment: self.comment.clone(),
            artist_type: self.artist_type,
            area: self.area,
            gender: self.gender,
            begin_date_year: self.begin_date_year,
            end_date_year: self.end_date_year,
            ended: self.ended,
        }
    }
}

impl Area {
    /// An independent copy of the row.
    pub fn duplicate(&self) -> (r: Area)
        ensures
            r == *self,
    {
        Area { id: self.id, gid: self.gid.clone(), name: self.name.clone(), area_type: self.area_type }
    }
}

} // verus!
