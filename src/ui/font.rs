//! Where each operating system keeps fonts with Chinese glyphs.
use vstd::prelude::*;

use crate::text::{chars_of, is_str};

verus! {

/// The font files to try, in order, for the operating system named `os` (as
/// `std::env::consts::OS` names it); none for other systems.
pub open spec fn font_paths_for(os: Seq<char>) -> Seq<Seq<char>> {
    if os == "windows"@ {
        seq![
            "C:\\Windows\\Fonts\\msyh.ttc"@,
            "C:\\Windows\\Fonts\\msyhbd.ttc"@,
            "C:\\Windows\\Fonts\\simsun.ttc"@,
            "C:\\Windows\\Fonts\\simhei.ttf"@,
            "C:\\Windows\\Fonts\\simkai.ttf"@,
            "C:\\Windows\\Fonts\\simfang.ttf"@,
        ]
    } else if os == "macos"@ {
        seq![
            "/System/Library/Fonts/PingFang.ttc"@,
            "/System/Library/Fonts/STHeiti Light.ttc"@,
            "/System/Library/Fonts/STSong.ttc"@,
            "/System/Library/Fonts/STKaiti.ttc"@,
            "/Library/Fonts/Arial Unicode.ttf"@,
        ]
    } else if os == "linux"@ {
        seq![
            "/usr/share/fonts/truetype/wqy/wqy-microhei.ttc"@,
            "/usr/share/fonts/truetype/wqy/wqy-zenhei.ttc"@,
            "/usr/share/fonts/truetype/droid/DroidSansFallbackFull.ttf"@,
            "/usr/share/fonts/truetype/noto/NotoSansCJK-Regular.ttc"@,
            "/usr/share/fonts/opentype/noto/NotoSansCJK-Regular.ttc"@,
        ]
    } else {
        seq![]
    }
}

pub open spec fn paths_view(v: Seq<&'static str>) -> Seq<Seq<char>> {
    v.map_values(|s: &'static str| s@)
}

/// The font files with Chinese glyphs to try on the operating system `os`.
pub fn get_chinese_font_paths(os: &str) -> (r: Vec<&'static str>)
    ensures
        paths_view(r@) == font_paths_for(os@),
{
    let o = chars_of(os);
    let mut r: Vec<&'static str> = Vec::new();
    if is_str(o.as_slice(), "windows") {
        r.push("C:\\Windows\\Fonts\\msyh.ttc");
        r.push("C:\\Windows\\Fonts\\msyhbd.ttc");
        r.push("C:\\Windows\\Fonts\\simsun.ttc");
        r.push("C:\\Windows\\Fonts\\simhei.ttf");
        r.push("C:\\Windows\\Fonts\\simkai.ttf");
        r.push("C:\\Windows\\Fonts\\simfang.ttf");
    } else if is_str(o.as_slice(), "macos") {
        r.push("/System/Library/Fonts/PingFang.ttc");
        r.push("/System/Library/Fonts/STHeiti Light.ttc");
        r.push("/System/Library/Fonts/STSong.ttc");
        r.push("/System/Library/Fonts/STKaiti.ttc");
        r.push("/Library/Fonts/Arial Unicode.ttf");
    } else if is_str(o.as_slice(), "linux") {
        r.push("/usr/share/fonts/truetype/wqy/wqy-microhei.ttc");
        r.push("/usr/share/fonts/truetype/wqy/wqy-zenhei.ttc");
        r.push("/usr/share/fonts/truetype/droid/DroidSansFallbackFull.ttf");
        r.push("/usr/share/fonts/truetype/noto/NotoSansCJK-Regular.ttc");
        r.push("/usr/share/fonts/opentype/noto/NotoSansCJK-Regular.ttc");
    }
    assert(paths_view(r@) =~= font_paths_for(os@));
    r
}

} // verus!
