//! Sprite source for Material Symbols icons.  The functions here compute
//! the exact file name and URL of an icon's SVG; fetching it and recoloring
//! its paths is the caller's job.

use vstd::prelude::*;

verus! {

/// Base URL of the Material Symbols SVG repository.
pub const MATERIAL_SYMBOLS_URL: &'static str =
    "https://raw.githubusercontent.com/google/material-design-icons/refs/heads/master/symbols/web";

/// The substring rewritten to force a white fill on every SVG path.
pub const PATH: &'static str = "<path ";

/// The replacement that forces a white fill.
pub const PATH_REPLACE_WITH_WHITE_FILL: &'static str = "<path fill=\"#fff\" ";

#[derive(Debug, Clone, PartialEq, Eq)]
pub enum MaterialSymbolsStyle {
    Outlined,
    Rounded,
    Sharp,
}

impl Default for MaterialSymbolsStyle {
    fn default() -> (r: Self)
        ensures
            r == MaterialSymbolsStyle::Outlined,
    {
        MaterialSymbolsStyle::Outlined
    }
}

/// The repository directory name for each style.
pub open spec fn spec_dir_name(s: MaterialSymbolsStyle) -> Seq<char> {
    match s {
        MaterialSymbolsStyle::Outlined => "materialsymbolsoutlined"@,
        MaterialSymbolsStyle::Rounded => "materialsymbolsrounded"@,
        MaterialSymbolsStyle::Sharp => "materialsymbolssharp"@,
    }
}

impl MaterialSymbolsStyle {
    pub fn as_dir_name(&self) -> (r: &str)
        ensures
            r@ == spec_dir_name(*self),
    {
        match self {
            Self::Outlined => "materialsymbolsoutlined",
            Self::Rounded => "materialsymbolsrounded",
            Self::Sharp => "materialsymbolssharp",
        }
    }
}

#[derive(Debug, Clone, PartialEq, Eq)]
pub enum MaterialSymbolsVariant {
    Filled,
    Outlined,
}

impl Default for MaterialSymbolsVariant {
    fn default() -> (r: Self)
        ensures
            r == MaterialSymbolsVariant::Outlined,
    {
        MaterialSymbolsVariant::Outlined
    }
}

/// The file-name segment for each variant; the default variant contributes
/// nothing.
pub open spec fn spec_variant_segment(v: MaterialSymbolsVariant) -> Seq<char> {
    match v {
        MaterialSymbolsVariant::Filled => "fill1"@,
        MaterialSymbolsVariant::Outlined => ""@,
    }
}

impl MaterialSymbolsVariant {
    pub fn as_file_name_segment(&self) -> (r: &str)
        ensures
            r@ == spec_variant_segment(*self),
    {
        match self {
            Self::Filled => "fill1",
            Self::Outlined => "",
        }
    }
}

#[derive(Debug, Clone, PartialEq, Eq)]
pub enum MaterialSymbolsSize {
    Size20px,
    Size24px,
    Size40px,
    Size48px,
}

impl Default for MaterialSymbolsSize {
    fn default() -> (r: Self)
        ensures
            r == MaterialSymbolsSize::Size48px,
    {
        MaterialSymbolsSize::Size48px
    }
}

/// The file-name segment for each optical size.
pub open spec fn spec_size_segment(s: MaterialSymbolsSize) -> Seq<char> {
    match s {
        MaterialSymbolsSize::Size20px => "20px"@,
        MaterialSymbolsSize::Size24px => "24px"@,
        MaterialSymbolsSize::Size40px => "40px"@,
        MaterialSymbolsSize::Size48px => "48px"@,
    }
}

impl MaterialSymbolsSize {
    pub fn as_file_name_segment(&self) -> (r: &str)
        ensures
            r@ == spec_size_segment(*self),
    {
        match self {
            Self::Size20px => "20px",
            Self::Size24px => "24px",
            Self::Size40px => "40px",
            Self::Size48px => "48px",
        }
    }
}

#[derive(Debug, Clone, PartialEq, Eq)]
pub enum MaterialSymbolsWeight {
    Weight100,
    Weight200,
    Weight300,
    Weight400,
    Weight500,
    Weight600,
    Weight700,
}

impl Default for MaterialSymbolsWeight {
    fn default() -> (r: Self)
        ensures
            r == MaterialSymbolsWeight::Weight400,
    {
        MaterialSymbolsWeight::Weight400
    }
}

/// The file-name segment for each stroke weight; the default weight
/// contributes nothing.
pub open spec fn spec_weight_segment(w: MaterialSymbolsWeight) -> Seq<char> {
    match w {
        MaterialSymbolsWeight::Weight100 => "wght100"@,
        MaterialSymbolsWeight::Weight200 => "wght200"@,
        MaterialSymbolsWeight::Weight300 => "wght300"@,
        MaterialSymbolsWeight::Weight400 => ""@,
        MaterialSymbolsWeight::Weight500 => "wght500"@,
        MaterialSymbolsWeight::Weight600 => "wght600"@,
        MaterialSymbolsWeight::Weight700 => "wght700"@,
    }
}

impl MaterialSymbolsWeight {
    pub fn as_file_name_segment(&self) -> (r: &str)
        ensures
            r@ == spec_weight_segment(*self),
    {
        match self {
            Self::Weight100 => "wght100",
            Self::Weight200 => "wght200",
            Self::Weight300 => "wght300",
            Self::Weight400 => "",
            Self::Weight500 => "wght500",
            Self::Weight600 => "wght600",
            Self::Weight700 => "wght700",
        }
    }
}

#[derive(Debug, Clone, PartialEq, Eq)]
pub enum MaterialSymbolsGrade {
    GradeNegative25,
    Grade0,
    Grade200,
}

impl Default for MaterialSymbolsGrade {
    fn default() -> (r: Self)
        ensures
            r == MaterialSymbolsGrade::Grade0,
    {
        MaterialSymbolsGrade::Grade0
    }
}

/// The file-name segment for each grade; the default grade contributes
/// nothing.
pub open spec fn spec_grade_segment(g: MaterialSymbolsGrade) -> Seq<char> {
    match g {
        MaterialSymbolsGrade::GradeNegative25 => "gradN25"@,
        MaterialSymbolsGrade::Grade0 => ""@,
        MaterialSymbolsGrade::Grade200 => "grad200"@,
    }
}

impl MaterialSymbolsGrade {
    pub fn as_file_name_segment(&self) -> (r: &str)
        ensures
            r@ == spec_grade_segment(*self),
    {
        match self {
            Self::GradeNegative25 => "gradN25",
            Self::Grade0 => "",
            Self::Grade200 => "grad200",
        }
    }
}

#[derive(Debug, Clone, PartialEq, Eq)]
pub struct MaterialSymbolsSource {
    pub symbol: String,
    pub style: MaterialSymbolsStyle,
    pub variant: MaterialSymbolsVariant,
    pub weight: MaterialSymbolsWeight,
    pub grade: MaterialSymbolsGrade,
    pub size: MaterialSymbolsSize,
}

/// The file name of the icon's SVG: the symbol, the non-default weight,
/// grade and variant segments, and the size, joined by underscores.
pub open spec fn spec_file_name(s: MaterialSymbolsSource) -> Seq<char> {
    let inner = spec_weight_segment(s.weight) + spec_grade_segment(s.grade)
        + spec_variant_segment(s.variant);
    if inner.len() == 0 {
        s.symbol@ + "_"@ + spec_size_segment(s.size) + ".svg"@
    } else {
        s.symbol@ + "_"@ + inner + "_"@ + spec_size_segment(s.size) + ".svg"@
    }
}

/// The full URL of the icon's SVG in the Material Symbols repository.
pub open spec fn spec_url(s: MaterialSymbolsSource) -> Seq<char> {
    MATERIAL_SYMBOLS_URL@ + "/"@ + s.symbol@ + "/"@ + spec_dir_name(s.style) + "/"@
        + spec_file_name(s)
}

impl MaterialSymbolsSource {
    /// The file name of this icon's SVG within its style directory.
    pub fn file_name(&self) -> (r: String)
        ensures
            r@ == spec_file_name(*self),
    {
        let mut inner = String::new();
        inner.append(self.weight.as_file_name_segment());
        inner.append(self.grade.as_file_name_segment());
        inner.append(self.variant.as_file_name_segment());

        let mut out = String::new();
        out.append(self.symbol.as_str());
        out.append("_");
        if !inner.as_str().is_empty() {
            out.append(inner.as_str());
            out.append("_");
        }
        out.append(self.size.as_file_name_segment());
        out.append(".svg");
        out
    }

    /// The full URL of this icon's SVG.
    pub fn url_string(&self) -> (r: String)
        ensures
            r@ == spec_url(*self),
    {
        let mut out = String::new();
        out.append(MATERIAL_SYMBOLS_URL);
        out.append("/");
        out.append(self.symbol.as_str());
        out.append("/");
        out.append(self.style.as_dir_name());
        out.append("/");
        let file = self.file_name();
        out.append(file.as_str());
        out
    }
}

} // verus!
