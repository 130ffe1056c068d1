//! Human-readable messages for validation error codes, Korean by
//! default and English on request.

use vstd::prelude::*;
use vstd::string::*;

verus! {

/// Optional context parameters for error message formatting.
///
/// Each field corresponds to a variable that may appear in a message
/// template. Pass only the fields relevant to the error being reported;
/// unused fields are ignored.
#[derive(Debug, Default, Clone, Copy)]
pub struct ErrorContext<'a> {
    /// The offending font name (used by the font error, 1004).
    pub font_name: Option<&'a str>,
    /// A numeric "found" value.
    pub found_value: Option<i64>,
    /// A numeric "expected" value.
    pub expected_value: Option<i64>,
    /// The offending bullet character (used by the bullet-shape error, 3304).
    pub bullet_char: Option<&'a str>,
}

/// The context with no parameter set.
pub open spec fn empty_context<'a>(ctx: ErrorContext<'a>) -> bool {
    &&& ctx.font_name is None
    &&& ctx.found_value is None
    &&& ctx.expected_value is None
    &&& ctx.bullet_char is None
}

impl<'a> ErrorContext<'a> {
    /// A context that carries no parameter.
    pub fn none() -> (r: Self)
        ensures
            empty_context(r),
    {
        ErrorContext { font_name: None, found_value: None, expected_value: None, bullet_char: None }
    }

    /// Convenience constructor for a font-name context.
    pub fn with_font(font_name: &'a str) -> (r: Self)
        ensures
            r.font_name == Some(font_name),
            r.found_value is None,
            r.expected_value is None,
            r.bullet_char is None,
    {
        ErrorContext {
            font_name: Some(font_name),
            found_value: None,
            expected_value: None,
            bullet_char: None,
        }
    }
}

/// The font name of a context, as characters.
pub open spec fn ctx_font<'a>(ctx: ErrorContext<'a>) -> Option<Seq<char>> {
    match ctx.font_name {
        Some(s) => Some(s@),
        None => None,
    }
}

/// The bullet character of a context, as characters.
pub open spec fn ctx_bullet<'a>(ctx: ErrorContext<'a>) -> Option<Seq<char>> {
    match ctx.bullet_char {
        Some(s) => Some(s@),
        None => None,
    }
}

/// The codes whose message needs no runtime parameter.
pub open spec fn has_static_message(code: u32) -> bool {
    code == 1001 || code == 1002 || code == 1003 || code == 1005 || code == 1006 || code == 1007 || code == 1008 || code == 1009 || code == 1010 || code == 1011 || code == 1012 || code == 1013 || code == 1014 || code == 1015 || code == 1016 || code == 1017 || code == 1018 || code == 1019 || code == 1020 || code == 1021 || code == 1022 || code == 1023 || code == 1024 || code == 1025 || code == 1026 || code == 1027 || code == 1028 || code == 1029 || code == 1030 || code == 1031 || code == 1032 || code == 1033 || code == 1034 || code == 1035 || code == 1036 || code == 1037 || code == 1038 || code == 1039 || code == 2004 || code == 2005 || code == 2006 || code == 2007 || code == 2008 || code == 2009 || code == 2010 || code == 3004 || code == 3033 || code == 3034 || code == 3035 || code == 3037 || code == 3038 || code == 3039 || code == 3040 || code == 3041 || code == 3042 || code == 3043 || code == 3044 || code == 3045 || code == 3046 || code == 3047 || code == 3048 || code == 3049 || code == 3050 || code == 3051 || code == 3052 || code == 3053 || code == 3054 || code == 3055 || code == 3056 || code == 3101 || code == 3102 || code == 3201 || code == 3206 || code == 3207 || code == 3302 || code == 3303 || code == 3401 || code == 3406 || code == 3407 || code == 3502 || code == 6901 || code == 7001
}

/// The fixed Korean message of a code; empty for codes without one.
pub open spec fn static_message_ko(code: u32) -> Seq<char> {
    match code {
        1001u32 => "글자 크기가 허용된 범위를 벗어났습니다"@,
        1002u32 => "언어 세트가 허용되지 않습니다"@,
        1003u32 => "언어 종류가 허용되지 않습니다"@,
        1005u32 => "글자 상대 크기가 허용된 범위를 벗어났습니다"@,
        1006u32 => "글자 위치가 허용된 범위를 벗어났습니다"@,
        1007u32 => "글자 장평 값이 허용된 범위를 벗어났습니다"@,
        1008u32 => "글자 자간 값이 허용된 범위를 벗어났습니다"@,
        1009u32 => "굵게 속성이 허용되지 않습니다"@,
        1010u32 => "기울임꼴 속성이 허용되지 않습니다"@,
        1011u32 => "밑줄 속성이 허용되지 않습니다"@,
        1012u32 => "취소선 속성이 허용되지 않습니다"@,
        1013u32 => "외곽선 속성이 허용되지 않습니다"@,
        1014u32 => "양각 속성이 허용되지 않습니다"@,
        1015u32 => "음각 속성이 허용되지 않습니다"@,
        1016u32 => "그림자 속성이 허용되지 않습니다"@,
        1017u32 => "위첨자 속성이 허용되지 않습니다"@,
        1018u32 => "아래첨자 속성이 허용되지 않습니다"@,
        1019u32 => "그림자 종류가 허용되지 않습니다"@,
        1020u32 => "그림자 X 방향 오프셋이 허용된 범위를 벗어났습니다"@,
        1021u32 => "그림자 Y 방향 오프셋이 허용된 범위를 벗어났습니다"@,
        1022u32 => "그림자 색상이 허용되지 않습니다"@,
        1023u32 => "밑줄 위치가 허용되지 않습니다"@,
        1024u32 => "밑줄 모양이 허용되지 않습니다"@,
        1025u32 => "밑줄 색상이 허용되지 않습니다"@,
        1026u32 => "취소선 모양이 허용되지 않습니다"@,
        1027u32 => "취소선 색상이 허용되지 않습니다"@,
        1028u32 => "외곽선 종류가 허용되지 않습니다"@,
        1029u32 => "빈 칸 사용 속성이 허용되지 않습니다"@,
        1030u32 => "글자 크기(포인트)가 허용된 범위를 벗어났습니다"@,
        1031u32 => "커닝 속성이 허용되지 않습니다"@,
        1032u32 => "글자 배경 테두리가 허용되지 않습니다"@,
        1033u32 => "글자 배경 테두리 위치가 허용되지 않습니다"@,
        1034u32 => "글자 배경 테두리 종류가 허용되지 않습니다"@,
        1035u32 => "글자 배경 테두리 굵기가 허용되지 않습니다"@,
        1036u32 => "글자 배경 테두리 색상이 허용되지 않습니다"@,
        1037u32 => "글자 배경 색상이 허용되지 않습니다"@,
        1038u32 => "글자 배경 패턴 색상이 허용되지 않습니다"@,
        1039u32 => "글자 배경 패턴 종류가 허용되지 않습니다"@,
        2004u32 => "첫째 줄 들여쓰기 값이 허용된 범위를 벗어났습니다"@,
        2005u32 => "들여쓰기 값이 허용된 범위를 벗어났습니다"@,
        2006u32 => "내어쓰기 값이 허용된 범위를 벗어났습니다"@,
        2007u32 => "줄 간격 유형이 허용되지 않습니다"@,
        2008u32 => "줄 간격 값이 허용된 범위를 벗어났습니다"@,
        2009u32 => "문단 위 간격 값이 허용된 범위를 벗어났습니다"@,
        2010u32 => "문단 아래 간격 값이 허용된 범위를 벗어났습니다"@,
        3004u32 => "표의 글자 취급 속성이 허용되지 않습니다"@,
        3033u32 => "표 테두리 선 종류가 허용되지 않습니다"@,
        3034u32 => "표 테두리 선 굵기가 허용되지 않습니다"@,
        3035u32 => "표 테두리 선 색상이 허용되지 않습니다"@,
        3037u32 => "셀 배경 채우기 종류가 허용되지 않습니다"@,
        3038u32 => "셀 배경 면 색상이 허용되지 않습니다"@,
        3039u32 => "셀 배경 무늬 색상이 허용되지 않습니다"@,
        3040u32 => "셀 배경 무늬 종류가 허용되지 않습니다"@,
        3041u32 => "셀 그라데이션 시작 색상이 허용되지 않습니다"@,
        3042u32 => "셀 그라데이션 끝 색상이 허용되지 않습니다"@,
        3043u32 => "셀 그라데이션 종류가 허용되지 않습니다"@,
        3044u32 => "셀 그라데이션 가로 중심 값이 허용되지 않습니다"@,
        3045u32 => "셀 그라데이션 세로 중심 값이 허용되지 않습니다"@,
        3046u32 => "셀 그라데이션 각도가 허용되지 않습니다"@,
        3047u32 => "셀 그라데이션 번짐 정도가 허용되지 않습니다"@,
        3048u32 => "셀 그라데이션 번짐 중심 값이 허용되지 않습니다"@,
        3049u32 => "셀 그림 파일 참조가 허용되지 않습니다"@,
        3050u32 => "셀 그림 포함 설정이 허용되지 않습니다"@,
        3051u32 => "셀 그림 채우기 방식이 허용되지 않습니다"@,
        3052u32 => "셀 그림 채우기 값이 허용되지 않습니다"@,
        3053u32 => "셀 그림 효과 종류가 허용되지 않습니다"@,
        3054u32 => "셀 그림 효과 값이 허용되지 않습니다"@,
        3055u32 => "셀 워터마크 설정이 허용되지 않습니다"@,
        3056u32 => "표 안에 표가 허용되지 않습니다"@,
        3101u32 => "허용 범위보다 낮은 특수 문자가 포함되어 있습니다"@,
        3102u32 => "허용 범위보다 높은 특수 문자가 포함되어 있습니다"@,
        3201u32 => "개요 모양 유형이 허용되지 않습니다"@,
        3206u32 => "개요 수준의 번호 형식이 허용되지 않습니다"@,
        3207u32 => "개요 수준의 번호 모양이 허용되지 않습니다"@,
        3302u32 => "글머리표 확인 유형이 허용되지 않습니다"@,
        3303u32 => "글머리표 문자 코드가 허용되지 않습니다"@,
        3401u32 => "문단 번호 유형이 허용되지 않습니다"@,
        3406u32 => "문단 번호 수준의 번호 형식이 허용되지 않습니다"@,
        3407u32 => "문단 번호 수준의 번호 모양이 허용되지 않습니다"@,
        3502u32 => "스타일 사용이 허용되지 않습니다"@,
        6901u32 => "하이퍼링크 사용이 허용되지 않습니다"@,
        7001u32 => "매크로 스크립트가 포함되어 있어 허용되지 않습니다"@,
        _ => Seq::empty(),
    }
}

/// The fixed English message of a code; empty for codes without one.
pub open spec fn static_message_en(code: u32) -> Seq<char> {
    match code {
        1001u32 => "font size is out of the allowed range"@,
        1002u32 => "language set is not allowed"@,
        1003u32 => "language type is not allowed"@,
        1005u32 => "relative character size is out of the allowed range"@,
        1006u32 => "character position is out of the allowed range"@,
        1007u32 => "character ratio is out of the allowed range"@,
        1008u32 => "character spacing is out of the allowed range"@,
        1009u32 => "bold attribute is not allowed"@,
        1010u32 => "italic attribute is not allowed"@,
        1011u32 => "underline attribute is not allowed"@,
        1012u32 => "strikeout attribute is not allowed"@,
        1013u32 => "outline attribute is not allowed"@,
        1014u32 => "emboss attribute is not allowed"@,
        1015u32 => "engrave attribute is not allowed"@,
        1016u32 => "shadow attribute is not allowed"@,
        1017u32 => "superscript attribute is not allowed"@,
        1018u32 => "subscript attribute is not allowed"@,
        1019u32 => "shadow type is not allowed"@,
        1020u32 => "shadow X offset is out of the allowed range"@,
        1021u32 => "shadow Y offset is out of the allowed range"@,
        1022u32 => "shadow color is not allowed"@,
        1023u32 => "underline position is not allowed"@,
        1024u32 => "underline shape is not allowed"@,
        1025u32 => "underline color is not allowed"@,
        1026u32 => "strikeout shape is not allowed"@,
        1027u32 => "strikeout color is not allowed"@,
        1028u32 => "outline type is not allowed"@,
        1029u32 => "empty-space attribute is not allowed"@,
        1030u32 => "font size in points is out of the allowed range"@,
        1031u32 => "kerning attribute is not allowed"@,
        1032u32 => "character background border is not allowed"@,
        1033u32 => "character background border position is not allowed"@,
        1034u32 => "character background border type is not allowed"@,
        1035u32 => "character background border size is not allowed"@,
        1036u32 => "character background border color is not allowed"@,
        1037u32 => "character background color is not allowed"@,
        1038u32 => "character background pattern color is not allowed"@,
        1039u32 => "character background pattern type is not allowed"@,
        2004u32 => "first-line indent is out of the allowed range"@,
        2005u32 => "paragraph indent is out of the allowed range"@,
        2006u32 => "paragraph outdent is out of the allowed range"@,
        2007u32 => "line-spacing type is not allowed"@,
        2008u32 => "line-spacing value is out of the allowed range"@,
        2009u32 => "paragraph spacing above is out of the allowed range"@,
        2010u32 => "paragraph spacing below is out of the allowed range"@,
        3004u32 => "table treat-as-char attribute is not allowed"@,
        3033u32 => "table border line type is not allowed"@,
        3034u32 => "table border line width is not allowed"@,
        3035u32 => "table border color is not allowed"@,
        3037u32 => "cell background fill type is not allowed"@,
        3038u32 => "cell background face color is not allowed"@,
        3039u32 => "cell background pattern color is not allowed"@,
        3040u32 => "cell background pattern type is not allowed"@,
        3041u32 => "cell gradient start color is not allowed"@,
        3042u32 => "cell gradient end color is not allowed"@,
        3043u32 => "cell gradient type is not allowed"@,
        3044u32 => "cell gradient width-center value is not allowed"@,
        3045u32 => "cell gradient height-center value is not allowed"@,
        3046u32 => "cell gradient angle is not allowed"@,
        3047u32 => "cell gradient blur level is not allowed"@,
        3048u32 => "cell gradient blur center is not allowed"@,
        3049u32 => "cell picture file reference is not allowed"@,
        3050u32 => "cell picture include flag is not allowed"@,
        3051u32 => "cell picture fill type is not allowed"@,
        3052u32 => "cell picture fill value is not allowed"@,
        3053u32 => "cell picture effect type is not allowed"@,
        3054u32 => "cell picture effect value is not allowed"@,
        3055u32 => "cell watermark is not allowed"@,
        3056u32 => "table inside table is not allowed"@,
        3101u32 => "text contains a special character below the allowed minimum"@,
        3102u32 => "text contains a special character above the allowed maximum"@,
        3201u32 => "outline shape type is not allowed"@,
        3206u32 => "outline level number format is not allowed"@,
        3207u32 => "outline level number shape is not allowed"@,
        3302u32 => "bullet check type is not allowed"@,
        3303u32 => "bullet character code is not allowed"@,
        3401u32 => "paragraph numbering type is not allowed"@,
        3406u32 => "paragraph numbering level format is not allowed"@,
        3407u32 => "paragraph numbering level shape is not allowed"@,
        3502u32 => "use of custom styles is not allowed"@,
        6901u32 => "use of hyperlinks is not allowed"@,
        7001u32 => "macro script is present but macros are not permitted"@,
        _ => Seq::empty(),
    }
}

/// The message of `code` in the chosen language, given the font name
/// and bullet character of its context.
pub open spec fn message(
    code: u32,
    font: Option<Seq<char>>,
    bullet: Option<Seq<char>>,
    english: bool,
) -> Seq<char> {
    if code == 1004 {
        match font {
            Some(name) => if english {
                "'"@ + name + "' is not an allowed font"@
            } else {
                "'"@ + name + "'은(는) 허용된 글꼴이 아닙니다"@
            },
            None => if english {
                "font is not in the allowed list"@
            } else {
                "글꼴이 허용 목록에 없습니다"@
            },
        }
    } else if code == 3304 {
        match bullet {
            Some(ch) => if english {
                "bullet character '"@ + ch + "' is not in the allowed list"@
            } else {
                "글머리표 문자 '"@ + ch + "'이(가) 허용 목록에 없습니다"@
            },
            None => if english {
                "bullet character is not in the allowed list"@
            } else {
                "글머리표 문자가 허용 목록에 없습니다"@
            },
        }
    } else if english {
        static_message_en(code)
    } else {
        static_message_ko(code)
    }
}

/// The Korean message of `code` when its context carries no parameter.
pub open spec fn plain_message(code: u32) -> Seq<char> {
    message(code, None, None, false)
}

fn static_ko(code: u32) -> (r: String)
    ensures
        r@ == static_message_ko(code),
{
    match code {
        1001 => String::from_str("글자 크기가 허용된 범위를 벗어났습니다"),
        1002 => String::from_str("언어 세트가 허용되지 않습니다"),
        1003 => String::from_str("언어 종류가 허용되지 않습니다"),
        1005 => String::from_str("글자 상대 크기가 허용된 범위를 벗어났습니다"),
        1006 => String::from_str("글자 위치가 허용된 범위를 벗어났습니다"),
        1007 => String::from_str("글자 장평 값이 허용된 범위를 벗어났습니다"),
        1008 => String::from_str("글자 자간 값이 허용된 범위를 벗어났습니다"),
        1009 => String::from_str("굵게 속성이 허용되지 않습니다"),
        1010 => String::from_str("기울임꼴 속성이 허용되지 않습니다"),
        1011 => String::from_str("밑줄 속성이 허용되지 않습니다"),
        1012 => String::from_str("취소선 속성이 허용되지 않습니다"),
        1013 => String::from_str("외곽선 속성이 허용되지 않습니다"),
        1014 => String::from_str("양각 속성이 허용되지 않습니다"),
        1015 => String::from_str("음각 속성이 허용되지 않습니다"),
        1016 => String::from_str("그림자 속성이 허용되지 않습니다"),
        1017 => String::from_str("위첨자 속성이 허용되지 않습니다"),
        1018 => String::from_str("아래첨자 속성이 허용되지 않습니다"),
        1019 => String::from_str("그림자 종류가 허용되지 않습니다"),
        1020 => String::from_str("그림자 X 방향 오프셋이 허용된 범위를 벗어났습니다"),
        1021 => String::from_str("그림자 Y 방향 오프셋이 허용된 범위를 벗어났습니다"),
        1022 => String::from_str("그림자 색상이 허용되지 않습니다"),
        1023 => String::from_str("밑줄 위치가 허용되지 않습니다"),
        1024 => String::from_str("밑줄 모양이 허용되지 않습니다"),
        1025 => String::from_str("밑줄 색상이 허용되지 않습니다"),
        1026 => String::from_str("취소선 모양이 허용되지 않습니다"),
        1027 => String::from_str("취소선 색상이 허용되지 않습니다"),
        1028 => String::from_str("외곽선 종류가 허용되지 않습니다"),
        1029 => String::from_str("빈 칸 사용 속성이 허용되지 않습니다"),
        1030 => String::from_str("글자 크기(포인트)가 허용된 범위를 벗어났습니다"),
        1031 => String::from_str("커닝 속성이 허용되지 않습니다"),
        1032 => String::from_str("글자 배경 테두리가 허용되지 않습니다"),
        1033 => String::from_str("글자 배경 테두리 위치가 허용되지 않습니다"),
        1034 => String::from_str("글자 배경 테두리 종류가 허용되지 않습니다"),
        1035 => String::from_str("글자 배경 테두리 굵기가 허용되지 않습니다"),
        1036 => String::from_str("글자 배경 테두리 색상이 허용되지 않습니다"),
        1037 => String::from_str("글자 배경 색상이 허용되지 않습니다"),
        1038 => String::from_str("글자 배경 패턴 색상이 허용되지 않습니다"),
        1039 => String::from_str("글자 배경 패턴 종류가 허용되지 않습니다"),
        2004 => String::from_str("첫째 줄 들여쓰기 값이 허용된 범위를 벗어났습니다"),
        2005 => String::from_str("들여쓰기 값이 허용된 범위를 벗어났습니다"),
        2006 => String::from_str("내어쓰기 값이 허용된 범위를 벗어났습니다"),
        2007 => String::from_str("줄 간격 유형이 허용되지 않습니다"),
        2008 => String::from_str("줄 간격 값이 허용된 범위를 벗어났습니다"),
        2009 => String::from_str("문단 위 간격 값이 허용된 범위를 벗어났습니다"),
        2010 => String::from_str("문단 아래 간격 값이 허용된 범위를 벗어났습니다"),
        3004 => String::from_str("표의 글자 취급 속성이 허용되지 않습니다"),
        3033 => String::from_str("표 테두리 선 종류가 허용되지 않습니다"),
        3034 => String::from_str("표 테두리 선 굵기가 허용되지 않습니다"),
        3035 => String::from_str("표 테두리 선 색상이 허용되지 않습니다"),
        3037 => String::from_str("셀 배경 채우기 종류가 허용되지 않습니다"),
        3038 => String::from_str("셀 배경 면 색상이 허용되지 않습니다"),
        3039 => String::from_str("셀 배경 무늬 색상이 허용되지 않습니다"),
        3040 => String::from_str("셀 배경 무늬 종류가 허용되지 않습니다"),
        3041 => String::from_str("셀 그라데이션 시작 색상이 허용되지 않습니다"),
        3042 => String::from_str("셀 그라데이션 끝 색상이 허용되지 않습니다"),
        3043 => String::from_str("셀 그라데이션 종류가 허용되지 않습니다"),
        3044 => String::from_str("셀 그라데이션 가로 중심 값이 허용되지 않습니다"),
        3045 => String::from_str("셀 그라데이션 세로 중심 값이 허용되지 않습니다"),
        3046 => String::from_str("셀 그라데이션 각도가 허용되지 않습니다"),
        3047 => String::from_str("셀 그라데이션 번짐 정도가 허용되지 않습니다"),
        3048 => String::from_str("셀 그라데이션 번짐 중심 값이 허용되지 않습니다"),
        3049 => String::from_str("셀 그림 파일 참조가 허용되지 않습니다"),
        3050 => String::from_str("셀 그림 포함 설정이 허용되지 않습니다"),
        3051 => String::from_str("셀 그림 채우기 방식이 허용되지 않습니다"),
        3052 => String::from_str("셀 그림 채우기 값이 허용되지 않습니다"),
        3053 => String::from_str("셀 그림 효과 종류가 허용되지 않습니다"),
        3054 => String::from_str("셀 그림 효과 값이 허용되지 않습니다"),
        3055 => String::from_str("셀 워터마크 설정이 허용되지 않습니다"),
        3056 => String::from_str("표 안에 표가 허용되지 않습니다"),
        3101 => String::from_str("허용 범위보다 낮은 특수 문자가 포함되어 있습니다"),
        3102 => String::from_str("허용 범위보다 높은 특수 문자가 포함되어 있습니다"),
        3201 => String::from_str("개요 모양 유형이 허용되지 않습니다"),
        3206 => String::from_str("개요 수준의 번호 형식이 허용되지 않습니다"),
        3207 => String::from_str("개요 수준의 번호 모양이 허용되지 않습니다"),
        3302 => String::from_str("글머리표 확인 유형이 허용되지 않습니다"),
        3303 => String::from_str("글머리표 문자 코드가 허용되지 않습니다"),
        3401 => String::from_str("문단 번호 유형이 허용되지 않습니다"),
        3406 => String::from_str("문단 번호 수준의 번호 형식이 허용되지 않습니다"),
        3407 => String::from_str("문단 번호 수준의 번호 모양이 허용되지 않습니다"),
        3502 => String::from_str("스타일 사용이 허용되지 않습니다"),
        6901 => String::from_str("하이퍼링크 사용이 허용되지 않습니다"),
        7001 => String::from_str("매크로 스크립트가 포함되어 있어 허용되지 않습니다"),
        _ => String::new(),
    }
}

fn static_en(code: u32) -> (r: String)
    ensures
        r@ == static_message_en(code),
{
    match code {
        1001 => String::from_str("font size is out of the allowed range"),
        1002 => String::from_str("language set is not allowed"),
        1003 => String::from_str("language type is not allowed"),
        1005 => String::from_str("relative character size is out of the allowed range"),
        1006 => String::from_str("character position is out of the allowed range"),
        1007 => String::from_str("character ratio is out of the allowed range"),
        1008 => String::from_str("character spacing is out of the allowed range"),
        1009 => String::from_str("bold attribute is not allowed"),
        1010 => String::from_str("italic attribute is not allowed"),
        1011 => String::from_str("underline attribute is not allowed"),
        1012 => String::from_str("strikeout attribute is not allowed"),
        1013 => String::from_str("outline attribute is not allowed"),
        1014 => String::from_str("emboss attribute is not allowed"),
        1015 => String::from_str("engrave attribute is not allowed"),
        1016 => String::from_str("shadow attribute is not allowed"),
        1017 => String::from_str("superscript attribute is not allowed"),
        1018 => String::from_str("subscript attribute is not allowed"),
        1019 => String::from_str("shadow type is not allowed"),
        1020 => String::from_str("shadow X offset is out of the allowed range"),
        1021 => String::from_str("shadow Y offset is out of the allowed range"),
        1022 => String::from_str("shadow color is not allowed"),
        1023 => String::from_str("underline position is not allowed"),
        1024 => String::from_str("underline shape is not allowed"),
        1025 => String::from_str("underline color is not allowed"),
        1026 => String::from_str("strikeout shape is not allowed"),
        1027 => String::from_str("strikeout color is not allowed"),
        1028 => String::from_str("outline type is not allowed"),
        1029 => String::from_str("empty-space attribute is not allowed"),
        1030 => String::from_str("font size in points is out of the allowed range"),
        1031 => String::from_str("kerning attribute is not allowed"),
        1032 => String::from_str("character background border is not allowed"),
        1033 => String::from_str("character background border position is not allowed"),
        1034 => String::from_str("character background border type is not allowed"),
        1035 => String::from_str("character background border size is not allowed"),
        1036 => String::from_str("character background border color is not allowed"),
        1037 => String::from_str("character background color is not allowed"),
        1038 => String::from_str("character background pattern color is not allowed"),
        1039 => String::from_str("character background pattern type is not allowed"),
        2004 => String::from_str("first-line indent is out of the allowed range"),
        2005 => String::from_str("paragraph indent is out of the allowed range"),
        2006 => String::from_str("paragraph outdent is out of the allowed range"),
        2007 => String::from_str("line-spacing type is not allowed"),
        2008 => String::from_str("line-spacing value is out of the allowed range"),
        2009 => String::from_str("paragraph spacing above is out of the allowed range"),
        2010 => String::from_str("paragraph spacing below is out of the allowed range"),
        3004 => String::from_str("table treat-as-char attribute is not allowed"),
        3033 => String::from_str("table border line type is not allowed"),
        3034 => String::from_str("table border line width is not allowed"),
        3035 => String::from_str("table border color is not allowed"),
        3037 => String::from_str("cell background fill type is not allowed"),
        3038 => String::from_str("cell background face color is not allowed"),
        3039 => String::from_str("cell background pattern color is not allowed"),
        3040 => String::from_str("cell background pattern type is not allowed"),
        3041 => String::from_str("cell gradient start color is not allowed"),
        3042 => String::from_str("cell gradient end color is not allowed"),
        3043 => String::from_str("cell gradient type is not allowed"),
        3044 => String::from_str("cell gradient width-center value is not allowed"),
        3045 => String::from_str("cell gradient height-center value is not allowed"),
        3046 => String::from_str("cell gradient angle is not allowed"),
        3047 => String::from_str("cell gradient blur level is not allowed"),
        3048 => String::from_str("cell gradient blur center is not allowed"),
        3049 => String::from_str("cell picture file reference is not allowed"),
        3050 => String::from_str("cell picture include flag is not allowed"),
        3051 => String::from_str("cell picture fill type is not allowed"),
        3052 => String::from_str("cell picture fill value is not allowed"),
        3053 => String::from_str("cell picture effect type is not allowed"),
        3054 => String::from_str("cell picture effect value is not allowed"),
        3055 => String::from_str("cell watermark is not allowed"),
        3056 => String::from_str("table inside table is not allowed"),
        3101 => String::from_str("text contains a special character below the allowed minimum"),
        3102 => String::from_str("text contains a special character above the allowed maximum"),
        3201 => String::from_str("outline shape type is not allowed"),
        3206 => String::from_str("outline level number format is not allowed"),
        3207 => String::from_str("outline level number shape is not allowed"),
        3302 => String::from_str("bullet check type is not allowed"),
        3303 => String::from_str("bullet character code is not allowed"),
        3401 => String::from_str("paragraph numbering type is not allowed"),
        3406 => String::from_str("paragraph numbering level format is not allowed"),
        3407 => String::from_str("paragraph numbering level shape is not allowed"),
        3502 => String::from_str("use of custom styles is not allowed"),
        6901 => String::from_str("use of hyperlinks is not allowed"),
        7001 => String::from_str("macro script is present but macros are not permitted"),
        _ => String::new(),
    }
}

/// Return a human-readable Korean error message for `code`.
///
/// Dynamic messages (the font error 1004 and the bullet error 3304)
/// include the context's font name or bullet character; all others are
/// fixed strings. An empty string is returned for unknown codes.
pub fn error_string(code: u32, ctx: ErrorContext<'_>) -> (r: String)
    ensures
        r@ == message(code, ctx_font(ctx), ctx_bullet(ctx), false),
{
    error_string_lang(code, ctx, false)
}

/// Return the message for `code`, in English when `english` holds and
/// in Korean otherwise.
pub fn error_string_lang(code: u32, ctx: ErrorContext<'_>, english: bool) -> (r: String)
    ensures
        r@ == message(code, ctx_font(ctx), ctx_bullet(ctx), english),
{
    if code == 1004 {
        match ctx.font_name {
            Some(name) => {
                let mut s = String::from_str("'");
                s.append(name);
                if english {
                    s.append("' is not an allowed font");
                } else {
                    s.append("'은(는) 허용된 글꼴이 아닙니다");
                }
                s
            },
            None => if english {
                String::from_str("font is not in the allowed list")
            } else {
                String::from_str("글꼴이 허용 목록에 없습니다")
            },
        }
    } else if code == 3304 {
        match ctx.bullet_char {
            Some(ch) => {
                let mut s = if english {
                    String::from_str("bullet character '")
                } else {
                    String::from_str("글머리표 문자 '")
                };
                s.append(ch);
                if english {
                    s.append("' is not in the allowed list");
                } else {
                    s.append("'이(가) 허용 목록에 없습니다");
                }
                s
            },
            None => if english {
                String::from_str("bullet character is not in the allowed list")
            } else {
                String::from_str("글머리표 문자가 허용 목록에 없습니다")
            },
        }
    } else if english {
        static_en(code)
    } else {
        static_ko(code)
    }
}


/// Whether `s` begins with `p` and ends with `q`, the two not
/// overlapping.
pub open spec fn wrapped(s: Seq<char>, p: Seq<char>, q: Seq<char>) -> bool {
    &&& s.len() >= p.len() + q.len()
    &&& s.subrange(0, p.len() as int) == p
    &&& s.subrange(s.len() - q.len(), s.len() as int) == q
}

/// What stands between prefix `p` and suffix `q` of `s`.
pub open spec fn wrapped_inner(s: Seq<char>, p: Seq<char>, q: Seq<char>) -> Seq<char> {
    s.subrange(p.len() as int, s.len() - q.len())
}

/// The English form of the Korean message `ko` of `code`: the font or
/// bullet character a dynamic message quotes is carried over, and a
/// fixed message is replaced by its English text.
pub open spec fn english_message(code: u32, ko: Seq<char>) -> Seq<char> {
    if code == 1004 {
        if wrapped(ko, "'"@, "'은(는) 허용된 글꼴이 아닙니다"@) {
            "'"@ + wrapped_inner(ko, "'"@, "'은(는) 허용된 글꼴이 아닙니다"@) + "' is not an allowed font"@
        } else {
            "font is not in the allowed list"@
        }
    } else if code == 3304 {
        if wrapped(ko, "글머리표 문자 '"@, "'이(가) 허용 목록에 없습니다"@) {
            "bullet character '"@ + wrapped_inner(ko, "글머리표 문자 '"@, "'이(가) 허용 목록에 없습니다"@)
                + "' is not in the allowed list"@
        } else {
            "bullet character is not in the allowed list"@
        }
    } else {
        static_message_en(code)
    }
}

/// Putting a Korean message into English gives the English message of
/// the same code and context.
pub proof fn law_english_of_korean(code: u32, font: Option<Seq<char>>, bullet: Option<Seq<char>>)
    ensures
        english_message(code, message(code, font, bullet, false)) == message(code, font, bullet, true),
{
    reveal_strlit("'");
    reveal_strlit("'은(는) 허용된 글꼴이 아닙니다");
    reveal_strlit("글꼴이 허용 목록에 없습니다");
    reveal_strlit("글머리표 문자 '");
    reveal_strlit("'이(가) 허용 목록에 없습니다");
    reveal_strlit("글머리표 문자가 허용 목록에 없습니다");
    let ko = message(code, font, bullet, false);
    if code == 1004 {
        let p = "'"@;
        let q = "'은(는) 허용된 글꼴이 아닙니다"@;
        match font {
            Some(n) => {
                assert(ko.subrange(0, p.len() as int) =~= p);
                assert(ko.subrange(ko.len() - q.len(), ko.len() as int) =~= q);
                assert(wrapped_inner(ko, p, q) =~= n);
            },
            None => {
                assert(ko[0] != p[0]);
                assert(ko.subrange(0, p.len() as int)[0] == ko[0]);
            },
        }
    } else if code == 3304 {
        let p = "글머리표 문자 '"@;
        let q = "'이(가) 허용 목록에 없습니다"@;
        match bullet {
            Some(n) => {
                assert(ko.subrange(0, p.len() as int) =~= p);
                assert(ko.subrange(ko.len() - q.len(), ko.len() as int) =~= q);
                assert(wrapped_inner(ko, p, q) =~= n);
            },
            None => {
                assert(ko[7] != p[7]);
                assert(ko.subrange(0, p.len() as int)[7] == ko[7]);
            },
        }
    }
}

/// Whether `s` begins with `p` and ends with `q`, the two not
/// overlapping.
fn is_wrapped(s: &str, p: &str, q: &str) -> (r: bool)
    ensures
        r == wrapped(s@, p@, q@),
{
    let n = s.unicode_len();
    let np = p.unicode_len();
    let nq = q.unicode_len();
    if n < np || n - np < nq {
        return false;
    }
    let mut i: usize = 0;
    while i < np
        invariant
            i <= np,
            np == p@.len(),
            n == s@.len(),
            np <= n,
            forall|k: int| 0 <= k < i ==> s@[k] == p@[k],
        decreases np - i,
    {
        if s.get_char(i) != p.get_char(i) {
            assert(s@.subrange(0, np as int)[i as int] != p@[i as int]);
            return false;
        }
        i = i + 1;
    }
    assert(s@.subrange(0, np as int) =~= p@);
    let start = n - nq;
    let mut j: usize = 0;
    while j < nq
        invariant
            j <= nq,
            nq == q@.len(),
            n == s@.len(),
            start == n - nq,
            forall|k: int| 0 <= k < j ==> s@[start + k] == q@[k],
        decreases nq - j,
    {
        if s.get_char(start + j) != q.get_char(j) {
            assert(s@.subrange(start as int, n as int)[j as int] != q@[j as int]);
            return false;
        }
        j = j + 1;
    }
    assert(s@.subrange(start as int, n as int) =~= q@);
    true
}

/// Put the Korean message `ko` of `code` into English.
pub fn english_of(code: u32, ko: &str) -> (r: String)
    ensures
        r@ == english_message(code, ko@),
{
    if code == 1004 {
        let p = "'";
        let q = "'은(는) 허용된 글꼴이 아닙니다";
        if is_wrapped(ko, p, q) {
            let mid = ko.substring_char(p.unicode_len(), ko.unicode_len() - q.unicode_len());
            let mut s = String::from_str("'");
            s.append(mid);
            s.append("' is not an allowed font");
            s
        } else {
            String::from_str("font is not in the allowed list")
        }
    } else if code == 3304 {
        let p = "글머리표 문자 '";
        let q = "'이(가) 허용 목록에 없습니다";
        if is_wrapped(ko, p, q) {
            let mid = ko.substring_char(p.unicode_len(), ko.unicode_len() - q.unicode_len());
            let mut s = String::from_str("bullet character '");
            s.append(mid);
            s.append("' is not in the allowed list");
            s
        } else {
            String::from_str("bullet character is not in the allowed list")
        }
    } else {
        static_en(code)
    }
}

} // verus!
