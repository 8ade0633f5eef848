//! Palettes as the menus know them: catalogue entries, choices, and what a swatch is
//! painted from.

use crate::ansi::Rgb;
use vstd::prelude::*;

verus! {

/// A palette of the built-in catalogue.
#[derive(Debug, PartialEq, Eq)]
pub struct PaletteEntry {
    pub id: String,
    pub display: String,
    pub description: String,
    /// The colour of low heat, as `#rrggbb`.
    pub from_hex: String,
    /// The colour of high heat, as `#rrggbb`.
    pub to_hex: String,
}

/// A palette that the user has saved.
#[derive(Debug, PartialEq, Eq)]
pub struct CustomPaletteEntry {
    pub name: String,
    pub display: String,
    pub from: String,
    pub to: String,
}

/// The texts of a saved palette.
#[verifier::ext_equal]
pub struct EntryText {
    pub name: Seq<char>,
    pub display: Seq<char>,
    pub from: Seq<char>,
    pub to: Seq<char>,
}

impl View for CustomPaletteEntry {
    type V = EntryText;

    open spec fn view(&self) -> EntryText {
        EntryText {
            name: self.name@,
            display: self.display@,
            from: self.from@,
            to: self.to@,
        }
    }
}

/// The palette that the user has chosen.
#[derive(Debug, PartialEq, Eq)]
pub enum PaletteChoice {
    /// The catalogue palette with this id.
    Named(String),
    /// A gradient between two colours.
    Custom { from: Rgb, to: Rgb },
}

/// What a swatch is painted from.
#[derive(Clone, Copy, Debug, PartialEq, Eq)]
pub enum SwatchSource {
    /// The built-in fire palette, softened.
    Fire,
    /// The palette generated between two colours, softened.
    Gradient { from: Rgb, to: Rgb },
    /// A plain gradient between two colours.
    Plain { from: Rgb, to: Rgb },
}

/// The two colours of a palette, as far as they could be read.
pub type Colors = (Option<Rgb>, Option<Rgb>);

/// Whether `read` gives `color` for `text`.
pub open spec fn reads_as<F: Fn(&str) -> Option<Rgb>>(
    read: F,
    text: Seq<char>,
    color: Option<Rgb>,
) -> bool {
    exists|s: &str| s@ == text && #[trigger] call_ensures(read, (s,), color)
}

/// Reads the two colours of each catalogue palette.
pub fn catalog_colors<F: Fn(&str) -> Option<Rgb>>(catalog: &[PaletteEntry], read: F) -> (colors:
    Vec<Colors>)
    requires
        forall|s: &str| call_requires(read, (s,)),
    ensures
        colors@.len() == catalog@.len(),
        forall|i: int|
            #![trigger colors@[i]]
            0 <= i < colors@.len() ==> reads_as(read, catalog@[i].from_hex@, colors@[i].0)
                && reads_as(read, catalog@[i].to_hex@, colors@[i].1),
{
    let mut colors: Vec<Colors> = Vec::new();
    for i in 0..catalog.len()
        invariant
            forall|s: &str| call_requires(read, (s,)),
            colors@.len() == i,
            forall|j: int|
                #![trigger colors@[j]]
                0 <= j < i ==> reads_as(read, catalog@[j].from_hex@, colors@[j].0) && reads_as(
                    read,
                    catalog@[j].to_hex@,
                    colors@[j].1,
                ),
    {
        let from = read(catalog[i].from_hex.as_str());
        let to = read(catalog[i].to_hex.as_str());
        colors.push((from, to));
    }
    colors
}

/// Reads the two colours of each saved palette.
pub fn saved_colors<F: Fn(&str) -> Option<Rgb>>(
    entries: &[CustomPaletteEntry],
    read: F,
) -> (colors: Vec<Colors>)
    requires
        forall|s: &str| call_requires(read, (s,)),
    ensures
        colors@.len() == entries@.len(),
        forall|i: int|
            #![trigger colors@[i]]
            0 <= i < colors@.len() ==> reads_as(read, entries@[i].from@, colors@[i].0)
                && reads_as(read, entries@[i].to@, colors@[i].1),
{
    let mut colors: Vec<Colors> = Vec::new();
    for i in 0..entries.len()
        invariant
            forall|s: &str| call_requires(read, (s,)),
            colors@.len() == i,
            forall|j: int|
                #![trigger colors@[j]]
                0 <= j < i ==> reads_as(read, entries@[j].from@, colors@[j].0) && reads_as(
                    read,
                    entries@[j].to@,
                    colors@[j].1,
                ),
    {
        let from = read(entries[i].from.as_str());
        let to = read(entries[i].to.as_str());
        colors.push((from, to));
    }
    colors
}

/// What the swatch is painted from that stands for a gradient of the user's own.
pub open spec fn custom_source() -> SwatchSource {
    SwatchSource::Plain { from: (50, 0, 60), to: (255, 180, 80) }
}

/// The swatch that stands for a gradient of the user's own.
pub fn custom_swatch() -> (source: SwatchSource)
    ensures
        source == custom_source(),
{
    SwatchSource::Plain { from: (50, 0, 60), to: (255, 180, 80) }
}

/// The gradient between two colours, black and white standing in for a colour that
/// could not be read.
pub open spec fn gradient(from: Option<Rgb>, to: Option<Rgb>) -> SwatchSource {
    SwatchSource::Gradient {
        from: match from {
            Some(color) => color,
            None => (0, 0, 0),
        },
        to: match to {
            Some(color) => color,
            None => (255, 255, 255),
        },
    }
}

/// The swatch of a saved palette whose colours read as `from` and `to`.
pub fn gradient_swatch(from: Option<Rgb>, to: Option<Rgb>) -> (source: SwatchSource)
    ensures
        source == gradient(from, to),
{
    SwatchSource::Gradient { from: from.unwrap_or((0, 0, 0)), to: to.unwrap_or((255, 255, 255)) }
}

/// What the swatch of the catalogue palette `id` is painted from.
pub open spec fn named_source(id: Seq<char>, colors: Colors) -> SwatchSource {
    if id == "fire"@ {
        SwatchSource::Fire
    } else {
        gradient(colors.0, colors.1)
    }
}

/// The swatch of the catalogue palette `id` whose colours read as `from` and `to`.
pub fn named_swatch(id: &String, from: Option<Rgb>, to: Option<Rgb>) -> (source: SwatchSource)
    ensures
        source == named_source(id@, (from, to)),
{
    if *id == "fire".to_string() {
        SwatchSource::Fire
    } else {
        gradient_swatch(from, to)
    }
}

/// The fire palette has the built-in flames, however its colours read; any other palette has
/// the gradient between its own two colours, from black where the first cannot be read and
/// to white where the second cannot.
pub proof fn lemma_swatch_sources(id: Seq<char>, colors: Colors)
    ensures
        named_source(id, colors) is Fire <==> id == "fire"@,
        id != "fire"@ ==> named_source(id, colors) == gradient(colors.0, colors.1),
        colors.0 matches Some(from) ==> gradient(colors.0, colors.1)->Gradient_from == from,
        colors.1 matches Some(to) ==> gradient(colors.0, colors.1)->Gradient_to == to,
        colors.0 is None ==> gradient(colors.0, colors.1)->Gradient_from == (0u8, 0u8, 0u8),
        colors.1 is None ==> gradient(colors.0, colors.1)->Gradient_to == (255u8, 255u8, 255u8),
        gradient(colors.0, colors.1) is Gradient,
        custom_source() == (SwatchSource::Plain {
            from: (50u8, 0u8, 60u8),
            to: (255u8, 180u8, 80u8),
        }),
{
}

} // verus!
