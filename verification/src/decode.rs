use vstd::prelude::*;

use crate::json::{
    blob_number_text_field, blob_text_field, blob_text_list_field, blob_u64_field,
    json_number_text_field, json_text_field, json_text_list_field, json_u64_field,
};
use crate::record::{texts_view, Eatery, RecordView};

verus! {

/// The pieces of one blob after field extraction, before validation: for
/// each required field, the decoded value when the document holds it with
/// the right type, `None` otherwise.
pub struct RawRecord {
    pub id: Option<u64>,
    pub name: Option<String>,
    pub category: Option<Vec<String>>,
    pub open_time: Option<String>,
    pub close_time: Option<String>,
    pub rating: Option<String>,
    pub photo: Option<String>,
    pub address: Option<String>,
    pub phone_number: Option<String>,
    pub reviews: Option<Vec<String>>,
}

/// `a` holds the same text as `b`, and is present exactly when `b` is.
pub open spec fn matches_text(a: Option<String>, b: Option<Seq<char>>) -> bool {
    match (a, b) {
        (Some(s), Some(t)) => s@ == t,
        (None, None) => true,
        _ => false,
    }
}

/// `a` holds the same texts as `b`, and is present exactly when `b` is.
pub open spec fn matches_texts(a: Option<Vec<String>>, b: Option<Seq<Seq<char>>>) -> bool {
    match (a, b) {
        (Some(v), Some(t)) => texts_view(v@) == t,
        (None, None) => true,
        _ => false,
    }
}

/// Every required field of the document is present with the right type,
/// and the id fits the machine word: exactly the blobs that decode. A field
/// the document holds beyond these nine plays no part.
pub open spec fn blob_well_formed(blob: Seq<char>) -> bool {
    &&& json_u64_field(blob, "id"@) matches Some(id) && id <= usize::MAX as u64
    &&& json_text_field(blob, "name"@) is Some
    &&& json_text_list_field(blob, "category"@) is Some
    &&& json_text_field(blob, "open_time"@) is Some
    &&& json_text_field(blob, "close_time"@) is Some
    &&& json_number_text_field(blob, "rating"@) is Some
    &&& json_text_field(blob, "photo"@) is Some
    &&& json_text_field(blob, "address"@) is Some
    &&& json_text_field(blob, "phone_number"@) is Some
    &&& json_text_list_field(blob, "reviews"@) is Some
}

/// The text, or empty when absent.
pub open spec fn text_or_empty(t: Option<Seq<char>>) -> Seq<char> {
    match t {
        Some(s) => s,
        None => Seq::empty(),
    }
}

/// The texts, or empty when absent.
pub open spec fn texts_or_empty(t: Option<Seq<Seq<char>>>) -> Seq<Seq<char>> {
    match t {
        Some(s) => s,
        None => Seq::empty(),
    }
}

/// The record data a well-formed blob decodes to.
pub open spec fn blob_record_view(blob: Seq<char>) -> RecordView
    recommends
        blob_well_formed(blob),
{
    RecordView {
        id: match json_u64_field(blob, "id"@) {
            Some(id) => id,
            None => 0,
        },
        name: text_or_empty(json_text_field(blob, "name"@)),
        category: texts_or_empty(json_text_list_field(blob, "category"@)),
        open_time: text_or_empty(json_text_field(blob, "open_time"@)),
        close_time: text_or_empty(json_text_field(blob, "close_time"@)),
        rating: text_or_empty(json_number_text_field(blob, "rating"@)),
        photo: text_or_empty(json_text_field(blob, "photo"@)),
        address: text_or_empty(json_text_field(blob, "address"@)),
        phone_number: text_or_empty(json_text_field(blob, "phone_number"@)),
        reviews: texts_or_empty(json_text_list_field(blob, "reviews"@)),
    }
}

/// The validation policy over the extracted pieces: a record is built
/// exactly when every required field decoded and the id fits the machine
/// word; each field of the record is the decoded value, unchanged.
pub fn build_record(raw: RawRecord) -> (r: Option<Eatery>)
    ensures
        match r {
            Some(e) => {
                &&& raw.id matches Some(id) && id == e.id as u64 && id <= usize::MAX as u64
                &&& raw.name matches Some(v) && v == e.name
                &&& raw.category matches Some(v) && v == e.category
                &&& raw.open_time matches Some(v) && v == e.open_time
                &&& raw.close_time matches Some(v) && v == e.close_time
                &&& raw.rating matches Some(v) && v == e.rating
                &&& raw.photo matches Some(v) && v == e.photo
                &&& raw.address matches Some(v) && v == e.address
                &&& raw.phone_number matches Some(v) && v == e.phone_number
                &&& raw.reviews matches Some(v) && v == e.reviews
            },
            None => !({
                &&& raw.id matches Some(id) && id <= usize::MAX as u64
                &&& raw.name is Some
                &&& raw.category is Some
                &&& raw.open_time is Some
                &&& raw.close_time is Some
                &&& raw.rating is Some
                &&& raw.photo is Some
                &&& raw.address is Some
                &&& raw.phone_number is Some
                &&& raw.reviews is Some
            }),
        },
{
    match raw {
        RawRecord {
            id: Some(id),
            name: Some(name),
            category: Some(category),
            open_time: Some(open_time),
            close_time: Some(close_time),
            rating: Some(rating),
            photo: Some(photo),
            address: Some(address),
            phone_number: Some(phone_number),
            reviews: Some(reviews),
        } => {
            if id <= usize::MAX as u64 {
                Some(
                    Eatery {
                        id: id as usize,
                        name,
                        category,
                        open_time,
                        close_time,
                        rating,
                        photo,
                        address,
                        phone_number,
                        reviews,
                    },
                )
            } else {
                None
            }
        },
        _ => None,
    }
}

/// Extract the nine required fields of one blob: for each, the decoded
/// value exactly when the document holds it with the right type.
pub fn extract_fields(blob: &str) -> (raw: RawRecord)
    ensures
        raw.id == json_u64_field(blob@, "id"@),
        matches_text(raw.name, json_text_field(blob@, "name"@)),
        matches_texts(raw.category, json_text_list_field(blob@, "category"@)),
        matches_text(raw.open_time, json_text_field(blob@, "open_time"@)),
        matches_text(raw.close_time, json_text_field(blob@, "close_time"@)),
        matches_text(raw.rating, json_number_text_field(blob@, "rating"@)),
        matches_text(raw.photo, json_text_field(blob@, "photo"@)),
        matches_text(raw.address, json_text_field(blob@, "address"@)),
        matches_text(raw.phone_number, json_text_field(blob@, "phone_number"@)),
        matches_texts(raw.reviews, json_text_list_field(blob@, "reviews"@)),
{
    RawRecord {
        id: blob_u64_field(blob, "id"),
        name: blob_text_field(blob, "name"),
        category: blob_text_list_field(blob, "category"),
        open_time: blob_text_field(blob, "open_time"),
        close_time: blob_text_field(blob, "close_time"),
        rating: blob_number_text_field(blob, "rating"),
        photo: blob_text_field(blob, "photo"),
        address: blob_text_field(blob, "address"),
        phone_number: blob_text_field(blob, "phone_number"),
        reviews: blob_text_list_field(blob, "reviews"),
    }
}

/// Decode one raw blob against the nine-field policy: a record exactly for
/// a well-formed blob, and then each field of the record is the document's.
pub fn decode_record(blob: &str) -> (r: Option<Eatery>)
    ensures
        (r is Some) <==> blob_well_formed(blob@),
        r matches Some(e) ==> e.rv() == blob_record_view(blob@),
{
    let raw = extract_fields(blob);
    let r = build_record(raw);
    proof {
        match &r {
            Some(e) => {
                assert(e.rv() =~= blob_record_view(blob@));
            },
            None => {},
        }
    }
    r
}

} // verus!
