//! Error codes of the validation findings, grouped by category.

use vstd::prelude::*;

verus! {

/// Category base codes of validation findings.
#[derive(Debug, Clone, Copy, PartialEq, Eq)]
pub enum ErrorCode {
    CharShape,
    ParaShape,
    Table,
    SpecialCharacter,
    OutlineShape,
    Bullet,
    ParaNumBullet,
    Style,
    Page,
    DocSummary,
    Footnote,
    Endnote,
    Memo,
    Chart,
    WordArt,
    Formula,
    Ole,
    FormObject,
    Bookmark,
    Hyperlink,
    Macro,
}

/// The numeric base of each category.
pub open spec fn spec_code_base(c: ErrorCode) -> u32 {
    match c {
        ErrorCode::CharShape => 1000,
        ErrorCode::ParaShape => 2000,
        ErrorCode::Table => 3000,
        ErrorCode::SpecialCharacter => 3100,
        ErrorCode::OutlineShape => 3200,
        ErrorCode::Bullet => 3300,
        ErrorCode::ParaNumBullet => 3400,
        ErrorCode::Style => 3500,
        ErrorCode::Page => 4000,
        ErrorCode::DocSummary => 5000,
        ErrorCode::Footnote => 6000,
        ErrorCode::Endnote => 6100,
        ErrorCode::Memo => 6200,
        ErrorCode::Chart => 6300,
        ErrorCode::WordArt => 6400,
        ErrorCode::Formula => 6500,
        ErrorCode::Ole => 6600,
        ErrorCode::FormObject => 6700,
        ErrorCode::Bookmark => 6800,
        ErrorCode::Hyperlink => 6900,
        ErrorCode::Macro => 7000,
    }
}

impl ErrorCode {
    /// The numeric base code of this category.
    pub fn code(self) -> (r: u32)
        ensures
            r == spec_code_base(self),
    {
        match self {
            ErrorCode::CharShape => 1000,
            ErrorCode::ParaShape => 2000,
            ErrorCode::Table => 3000,
            ErrorCode::SpecialCharacter => 3100,
            ErrorCode::OutlineShape => 3200,
            ErrorCode::Bullet => 3300,
            ErrorCode::ParaNumBullet => 3400,
            ErrorCode::Style => 3500,
            ErrorCode::Page => 4000,
            ErrorCode::DocSummary => 5000,
            ErrorCode::Footnote => 6000,
            ErrorCode::Endnote => 6100,
            ErrorCode::Memo => 6200,
            ErrorCode::Chart => 6300,
            ErrorCode::WordArt => 6400,
            ErrorCode::Formula => 6500,
            ErrorCode::Ole => 6600,
            ErrorCode::FormObject => 6700,
            ErrorCode::Bookmark => 6800,
            ErrorCode::Hyperlink => 6900,
            ErrorCode::Macro => 7000,
        }
    }
}


// Character-shape codes (1000 range).
pub const CHARSHAPE_FONTSIZE: u32 = 1001;
pub const CHARSHAPE_LANGSET: u32 = 1002;
pub const CHARSHAPE_LANGTYPE: u32 = 1003;
pub const CHARSHAPE_FONT: u32 = 1004;
pub const CHARSHAPE_RSIZE: u32 = 1005;
pub const CHARSHAPE_POSITION: u32 = 1006;
pub const CHARSHAPE_RATIO: u32 = 1007;
pub const CHARSHAPE_SPACING: u32 = 1008;
pub const CHARSHAPE_BOLD: u32 = 1009;
pub const CHARSHAPE_ITALIC: u32 = 1010;
pub const CHARSHAPE_UNDERLINE: u32 = 1011;
pub const CHARSHAPE_STRIKEOUT: u32 = 1012;
pub const CHARSHAPE_OUTLINE: u32 = 1013;
pub const CHARSHAPE_EMBOSS: u32 = 1014;
pub const CHARSHAPE_ENGRAVE: u32 = 1015;
pub const CHARSHAPE_SHADOW: u32 = 1016;
pub const CHARSHAPE_SUPSCRIPT: u32 = 1017;
pub const CHARSHAPE_SUBSCRIPT: u32 = 1018;
pub const CHARSHAPE_SHADOWTYPE: u32 = 1019;
pub const CHARSHAPE_SHADOW_X: u32 = 1020;
pub const CHARSHAPE_SHADOW_Y: u32 = 1021;
pub const CHARSHAPE_SHADOW_COLOR: u32 = 1022;
pub const CHARSHAPE_UNDERLINE_POSITION: u32 = 1023;
pub const CHARSHAPE_UNDERLINE_SHAPE: u32 = 1024;
pub const CHARSHAPE_UNDERLINE_COLOR: u32 = 1025;
pub const CHARSHAPE_STRIKEOUT_SHAPE: u32 = 1026;
pub const CHARSHAPE_STRIKEOUT_COLOR: u32 = 1027;
pub const CHARSHAPE_OUTLINETYPE: u32 = 1028;
pub const CHARSHAPE_EMPTYSPACE: u32 = 1029;
pub const CHARSHAPE_POINT: u32 = 1030;
pub const CHARSHAPE_KERNING: u32 = 1031;
pub const CHARSHAPE_BG_BORDER: u32 = 1032;
pub const CHARSHAPE_BG_BORDER_POSITION: u32 = 1033;
pub const CHARSHAPE_BG_BORDER_BORDERTYPE: u32 = 1034;
pub const CHARSHAPE_BG_BORDER_SIZE: u32 = 1035;
pub const CHARSHAPE_BG_BORDER_COLOR: u32 = 1036;
pub const CHARSHAPE_BG_COLOR: u32 = 1037;
pub const CHARSHAPE_BG_PATTONCOLOR: u32 = 1038;
pub const CHARSHAPE_BG_PATTONTYPE: u32 = 1039;

// Paragraph-shape codes (2000 range).
pub const PARASHAPE_HORIZONTAL: u32 = 2001;
pub const PARASHAPE_MARGINLEFT: u32 = 2002;
pub const PARASHAPE_MARGINRIGHT: u32 = 2003;
pub const PARASHAPE_FIRSTLINE: u32 = 2004;
pub const PARASHAPE_INDENT: u32 = 2005;
pub const PARASHAPE_OUTDENT: u32 = 2006;
pub const PARASHAPE_LINESPACING: u32 = 2007;
pub const PARASHAPE_LINESPACINGVALUE: u32 = 2008;
pub const PARASHAPE_SPACINGPARAUP: u32 = 2009;
pub const PARASHAPE_SPACINGPARABOTTOM: u32 = 2010;
pub const PARASHAPE_SPACINGGRIDPAPER: u32 = 2011;
pub const PARASHAPE_LINEBREAKKOREAN: u32 = 2012;
pub const PARASHAPE_LINEBREAKENGLISH: u32 = 2013;
pub const PARASHAPE_LINEBREAKCONDENSE: u32 = 2014;
pub const PARASHAPE_PARATYPE: u32 = 2015;
pub const PARASHAPE_PARATYPEVALUE: u32 = 2016;
pub const PARASHAPE_WIDOWORPHAN: u32 = 2017;
pub const PARASHAPE_KEEPWITHNEXT: u32 = 2018;
pub const PARASHAPE_KEEPLINESTOGETHER: u32 = 2019;
pub const PARASHAPE_PAGEBREAKBEFORE: u32 = 2020;
pub const PARASHAPE_FONTLINEHEIGHT: u32 = 2021;
pub const PARASHAPE_LINEWRAP: u32 = 2022;
pub const PARASHAPE_AUTOSPACEEASIANENG: u32 = 2023;
pub const PARASHAPE_AUTOSPACEEASIANNUM: u32 = 2024;
pub const PARASHAPE_VERTICALALIGN: u32 = 2025;
pub const PARASHAPE_SPACINGIGNORE: u32 = 2045;

// Table codes (3000 range).
pub const TABLE_SIZE_WIDTH: u32 = 3001;
pub const TABLE_SIZE_HEIGHT: u32 = 3002;
pub const TABLE_SIZE_FIXED: u32 = 3003;
pub const TABLE_TREAT_AS_CHAR: u32 = 3004;
pub const TABLE_POS: u32 = 3005;
pub const TABLE_TEXT_POS: u32 = 3006;
pub const TABLE_HTYPE: u32 = 3007;
pub const TABLE_HDIRECTION: u32 = 3008;
pub const TABLE_HVALUE: u32 = 3009;
pub const TABLE_VTYPE: u32 = 3010;
pub const TABLE_VDIRECTION: u32 = 3011;
pub const TABLE_VVALUE: u32 = 3012;
pub const TABLE_SOFLOW_WITH_TEXT: u32 = 3013;
pub const TABLE_SOALLOW_OVERLAP: u32 = 3014;
pub const TABLE_SOHOLD_ANCHOR_OBJ: u32 = 3015;
pub const TABLE_PARALLEL: u32 = 3016;
pub const TABLE_ROTATION: u32 = 3017;
pub const TABLE_GRADIENT_H: u32 = 3018;
pub const TABLE_GRADIENT_V: u32 = 3019;
pub const TABLE_NUM_VER_TYPE: u32 = 3020;
pub const TABLE_OBJ_PROTECT: u32 = 3021;
pub const TABLE_MARGIN_LEFT: u32 = 3022;
pub const TABLE_MARGIN_RIGHT: u32 = 3023;
pub const TABLE_MARGIN_TOP: u32 = 3024;
pub const TABLE_MARGIN_BOTTOM: u32 = 3025;
pub const TABLE_CAPTION_POSITION: u32 = 3026;
pub const TABLE_CAPTION_SIZE: u32 = 3027;
pub const TABLE_CAPTION_SPACING: u32 = 3028;
pub const TABLE_CAPTION_SOCAP_FULL_SIZE: u32 = 3029;
pub const TABLE_CAPTION_LINE_WRAP: u32 = 3030;
pub const TABLE_BORDER_TYPE: u32 = 3033;
pub const TABLE_BORDER_SIZE: u32 = 3034;
pub const TABLE_BORDER_COLOR: u32 = 3035;
pub const TABLE_BORDER_CELL_SPACING: u32 = 3036;
pub const TABLE_BGFILL_TYPE: u32 = 3037;
pub const TABLE_BGFILL_FACECOLOR: u32 = 3038;
pub const TABLE_BGFILL_PATTONCOLOR: u32 = 3039;
pub const TABLE_BGFILL_PATTONTYPE: u32 = 3040;
pub const TABLE_BGGRADATION_STARTCOLOR: u32 = 3041;
pub const TABLE_BGGRADATION_ENDCOLOR: u32 = 3042;
pub const TABLE_BGGRADATION_TYPE: u32 = 3043;
pub const TABLE_BGGRADATION_WIDTHCENTER: u32 = 3044;
pub const TABLE_BGGRADATION_HEIGHTCENTER: u32 = 3045;
pub const TABLE_BGGRADATION_GRADATIONANGLE: u32 = 3046;
pub const TABLE_BGGRADATION_BLURLEVEL: u32 = 3047;
pub const TABLE_BGGRADATION_BLURCENTER: u32 = 3048;
pub const TABLE_PICTURE_FILE: u32 = 3049;
pub const TABLE_PICTURE_INCLUDE: u32 = 3050;
pub const TABLE_PICTUREFILL_TYPE: u32 = 3051;
pub const TABLE_PICTUREFILL_VALUE: u32 = 3052;
pub const TABLE_EFFECT_TYPE: u32 = 3053;
pub const TABLE_EFFECT_VALUE: u32 = 3054;
pub const TABLE_WATERMARK: u32 = 3055;
pub const TABLE_IN_TABLE: u32 = 3056;

// Special-character codes (3100 range).
pub const SPECIALCHAR_MIN: u32 = 3101;
pub const SPECIALCHAR_MAX: u32 = 3102;

// Outline-shape codes (3200 range).
pub const OUTLINESHAPE_TYPE: u32 = 3201;
pub const OUTLINESHAPE_STARTNUMBER: u32 = 3202;
pub const OUTLINESHAPE_VALUE: u32 = 3203;
pub const OUTLINESHAPE_LEVELTYPE: u32 = 3204;
pub const OUTLINESHAPE_LEVELTYPE_LEVEL: u32 = 3205;
pub const OUTLINESHAPE_LEVEL_NUMBERTYPE: u32 = 3206;
pub const OUTLINESHAPE_LEVEL_NUMBERSHAPE: u32 = 3207;

// Bullet codes (3300 range).
pub const BULLET_CHECKTYPE: u32 = 3302;
pub const BULLET_CODE: u32 = 3303;
pub const BULLET_SHAPES: u32 = 3304;

// Paragraph-numbering codes (3400 range).
pub const PARANUM_TYPE: u32 = 3401;
pub const PARANUM_STARTNUMBER: u32 = 3402;
pub const PARANUM_VALUE: u32 = 3403;
pub const PARANUM_LEVELTYPE: u32 = 3404;
pub const PARANUM_LEVELTYPE_LEVEL: u32 = 3405;
pub const PARANUM_LEVEL_NUMBERTYPE: u32 = 3406;
pub const PARANUM_LEVEL_NUMBERSHAPE: u32 = 3407;

// Style codes (3500 range).
pub const STYLE_TYPE: u32 = 3501;
pub const STYLE_PERMISSION: u32 = 3502;

// Hyperlink and macro codes.
pub const HYPERLINK_PERMISSION: u32 = 6901;
pub const MACRO_PERMISSION: u32 = 7001;

/// Errors raised while reading a document or a spec.
#[derive(Debug)]
pub enum DvcError {
    /// A member of the archive could not be read.
    Io(std::io::Error),
    /// The archive could not be read as a ZIP container.
    Zip(zip::result::ZipError),
    /// An XML part could not be tokenized.
    Xml(quick_xml::Error),
    /// The spec is malformed.
    Spec(String),
    /// The document is structurally malformed.
    Document(String),
    /// The requested feature is not available.
    NotImplemented(String),
}

/// The result type of fallible library operations.
pub type DvcResult<T> = Result<T, DvcError>;

} // verus!
