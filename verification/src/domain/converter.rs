//! Converter capabilities shown to the user.

use vstd::prelude::*;
use crate::text::views;

verus! {

#[derive(Clone, Copy, Debug, PartialEq, Eq, Structural)]
pub enum ConverterCategory {
    Document,
    Pdf,
    Image,
    Audio,
}

#[derive(Clone, Copy, Debug, PartialEq, Eq, Structural)]
pub enum ConverterStatus {
    Ready,
    ExternalRequired,
    Planned,
}

/// One conversion family, its engine and whether it can run.
#[derive(Clone, Debug, PartialEq, Eq)]
pub struct ConverterCapability {
    pub id: String,
    pub category: ConverterCategory,
    pub title_key: String,
    pub description_key: String,
    pub engine: String,
    pub status: ConverterStatus,
    pub bundled: bool,
    pub input_extensions: Vec<String>,
    pub output_extensions: Vec<String>,
}

/// The mathematical content of a [`ConverterCapability`].
pub struct CapabilityModel {
    pub id: Seq<char>,
    pub category: ConverterCategory,
    pub title_key: Seq<char>,
    pub description_key: Seq<char>,
    pub engine: Seq<char>,
    pub status: ConverterStatus,
    pub bundled: bool,
    pub input_extensions: Seq<Seq<char>>,
    pub output_extensions: Seq<Seq<char>>,
}

impl View for ConverterCapability {
    type V = CapabilityModel;

    open spec fn view(&self) -> CapabilityModel {
        CapabilityModel {
            id: self.id@,
            category: self.category,
            title_key: self.title_key@,
            description_key: self.description_key@,
            engine: self.engine@,
            status: self.status,
            bundled: self.bundled,
            input_extensions: views(self.input_extensions@),
            output_extensions: views(self.output_extensions@),
        }
    }
}

/// The texts of a list of string slices.
pub open spec fn str_views(v: Seq<&str>) -> Seq<Seq<char>> {
    v.map_values(|s: &str| s@)
}

fn owned_all(values: &[&str]) -> (r: Vec<String>)
    ensures
        views(r@) == str_views(values@),
{
    let mut r: Vec<String> = Vec::new();
    let mut i: usize = 0;
    while i < values.len()
        invariant
            i <= values.len(),
            r.len() == i,
            views(r@) =~= str_views(values@).take(i as int),
        decreases values.len() - i,
    {
        let ghost before = r@;
        r.push(values[i].to_owned());
        proof {
            assert(r@ =~= before.push(r@[i as int]));
            assert(views(r@) =~= views(before).push(values@[i as int]@));
            assert(str_views(values@).take(i + 1) =~= str_views(values@).take(i as int).push(values@[i as int]@));
        }
        i = i + 1;
    }
    assert(str_views(values@).take(values.len() as int) =~= str_views(values@));
    r
}

impl ConverterCapability {
    pub fn new(
        id: &str,
        category: ConverterCategory,
        title_key: &str,
        description_key: &str,
        engine: &str,
        status: ConverterStatus,
        bundled: bool,
        input_extensions: &[&str],
        output_extensions: &[&str],
    ) -> (r: ConverterCapability)
        ensures
            r@ == (CapabilityModel {
                id: id@,
                category,
                title_key: title_key@,
                description_key: description_key@,
                engine: engine@,
                status,
                bundled,
                input_extensions: str_views(input_extensions@),
                output_extensions: str_views(output_extensions@),
            }),
    {
        ConverterCapability {
            id: id.to_owned(),
            category,
            title_key: title_key.to_owned(),
            description_key: description_key.to_owned(),
            engine: engine.to_owned(),
            status,
            bundled,
            input_extensions: owned_all(input_extensions),
            output_extensions: owned_all(output_extensions),
        }
    }
}

} // verus!
