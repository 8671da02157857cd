use vstd::prelude::*;

verus! {

/// One eatery, as decoded from a record blob.
///
/// `rating` holds the decimal text of the number it was decoded from; the
/// catalog never interprets it, it is only carried through to responses.
pub struct Eatery {
    pub id: usize,
    pub name: String,
    pub category: Vec<String>,
    pub open_time: String,
    pub close_time: String,
    pub rating: String,
    pub photo: String,
    pub address: String,
    pub phone_number: String,
    pub reviews: Vec<String>,
}

/// The reduced response shape: every field of `Eatery` except `reviews`.
pub struct BasicEatery {
    pub id: usize,
    pub name: String,
    pub category: Vec<String>,
    pub open_time: String,
    pub close_time: String,
    pub rating: String,
    pub photo: String,
    pub address: String,
    pub phone_number: String,
}

/// The character sequences of a list of strings.
pub open spec fn texts_view(v: Seq<String>) -> Seq<Seq<char>> {
    v.map_values(|s: String| s@)
}

/// The data of one record as plain mathematical values: what contracts
/// compare when records are decoded, sorted and projected.
#[verifier::ext_equal]
pub ghost struct RecordView {
    pub id: u64,
    pub name: Seq<char>,
    pub category: Seq<Seq<char>>,
    pub open_time: Seq<char>,
    pub close_time: Seq<char>,
    pub rating: Seq<char>,
    pub photo: Seq<char>,
    pub address: Seq<char>,
    pub phone_number: Seq<char>,
    pub reviews: Seq<Seq<char>>,
}

/// The data of each record, in order.
pub open spec fn records_view(s: Seq<Eatery>) -> Seq<RecordView> {
    s.map_values(|e: Eatery| e.rv())
}

/// The two full records hold the same data in every field.
pub open spec fn same_record(a: Eatery, b: Eatery) -> bool {
    &&& a.id == b.id
    &&& a.name@ == b.name@
    &&& a.category@ == b.category@
    &&& a.open_time@ == b.open_time@
    &&& a.close_time@ == b.close_time@
    &&& a.rating@ == b.rating@
    &&& a.photo@ == b.photo@
    &&& a.address@ == b.address@
    &&& a.phone_number@ == b.phone_number@
    &&& a.reviews@ == b.reviews@
}

/// `b` is the projection of `e`: every field they share holds the same data.
pub open spec fn projects(e: Eatery, b: BasicEatery) -> bool {
    &&& b.id == e.id
    &&& b.name@ == e.name@
    &&& b.category@ == e.category@
    &&& b.open_time@ == e.open_time@
    &&& b.close_time@ == e.close_time@
    &&& b.rating@ == e.rating@
    &&& b.photo@ == e.photo@
    &&& b.address@ == e.address@
    &&& b.phone_number@ == e.phone_number@
}

/// An equal copy of a list of strings.
fn clone_strings(v: &Vec<String>) -> (r: Vec<String>)
    ensures
        r@ == v@,
{
    let mut r: Vec<String> = Vec::new();
    let mut i: usize = 0;
    while i < v.len()
        invariant
            i <= v.len(),
            r@.len() == i,
            forall|k: int| 0 <= k < i ==> r@[k] == v@[k],
        decreases v.len() - i,
    {
        r.push(v[i].clone());
        i += 1;
    }
    proof {
        assert(r@ =~= v@);
    }
    r
}

impl Eatery {
    /// The record's data as plain values.
    pub open spec fn rv(self) -> RecordView {
        RecordView {
            id: self.id as u64,
            name: self.name@,
            category: texts_view(self.category@),
            open_time: self.open_time@,
            close_time: self.close_time@,
            rating: self.rating@,
            photo: self.photo@,
            address: self.address@,
            phone_number: self.phone_number@,
            reviews: texts_view(self.reviews@),
        }
    }

    /// An equal copy of the record.
    pub fn duplicate(&self) -> (r: Eatery)
        ensures
            same_record(r, *self),
    {
        Eatery {
            id: self.id,
            name: self.name.clone(),
            category: clone_strings(&self.category),
            open_time: self.open_time.clone(),
            close_time: self.close_time.clone(),
            rating: self.rating.clone(),
            photo: self.photo.clone(),
            address: self.address.clone(),
            phone_number: self.phone_number.clone(),
            reviews: clone_strings(&self.reviews),
        }
    }

    /// The projection: every field copied except `reviews`.
    pub fn to_basic(&self) -> (b: BasicEatery)
        ensures
            projects(*self, b),
    {
        BasicEatery {
            id: self.id,
            name: self.name.clone(),
            category: clone_strings(&self.category),
            open_time: self.open_time.clone(),
            close_time: self.close_time.clone(),
            rating: self.rating.clone(),
            photo: self.photo.clone(),
            address: self.address.clone(),
            phone_number: self.phone_number.clone(),
        }
    }
}

impl From<Eatery> for BasicEatery {
    /// The projection by field subtraction: the record minus its reviews.
    fn from(e: Eatery) -> (b: Self) {
        BasicEatery {
            id: e.id,
            name: e.name,
            category: e.category,
            open_time: e.open_time,
            close_time: e.close_time,
            rating: e.rating,
            photo: e.photo,
            address: e.address,
            phone_number: e.phone_number,
        }
    }
}

impl vstd::std_specs::convert::FromSpecImpl<Eatery> for BasicEatery {
    open spec fn obeys_from_spec() -> bool {
        true
    }

    open spec fn from_spec(e: Eatery) -> BasicEatery {
        BasicEatery {
            id: e.id,
            name: e.name,
            category: e.category,
            open_time: e.open_time,
            close_time: e.close_time,
            rating: e.rating,
            photo: e.photo,
            address: e.address,
            phone_number: e.phone_number,
        }
    }
}

} // verus!
