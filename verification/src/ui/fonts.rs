//! The fonts of the panels.

use vstd::prelude::*;

use crate::config::UiLanguage;
use crate::text::views;

verus! {

/// Whether a language needs a font of its own.
pub fn requires_cjk_font(language: UiLanguage) -> (r: bool)
    ensures
        r == (language == UiLanguage::Korean || language == UiLanguage::Japanese || language
            == UiLanguage::Chinese),
{
    match language {
        UiLanguage::Korean | UiLanguage::Japanese | UiLanguage::Chinese => true,
        _ => false,
    }
}

/// The systems whose fonts are known.
#[derive(Debug, Clone, Copy, PartialEq, Eq, Structural)]
pub enum Platform {
    MacOs,
    Windows,
    OtherUnix,
}

/// A font that a system may have.
#[derive(Debug, Clone, Copy)]
pub struct FontCandidate {
    pub name: &'static str,
    pub path: &'static str,
    pub index: u32,
}

/// The name and the file of a font, and which of the fonts in the file it is.
pub open spec fn font_of(c: FontCandidate) -> (Seq<char>, Seq<char>, u32) {
    (c.name@, c.path@, c.index)
}

/// The fonts that a system may have, lighter ones first.
pub open spec fn known_fonts(platform: Platform) -> Seq<(Seq<char>, Seq<char>, u32)> {
    match platform {
        Platform::MacOs => seq![
            ("AppleGothic"@, "/System/Library/Fonts/Supplemental/AppleGothic.ttf"@, 0),
            ("ArialUnicode"@, "/System/Library/Fonts/Supplemental/Arial Unicode.ttf"@, 0),
            ("HiraginoSansGB"@, "/System/Library/Fonts/Hiragino Sans GB.ttc"@, 0),
            ("PingFang"@, "/System/Library/Fonts/PingFang.ttc"@, 0),
            ("AppleSDGothicNeo"@, "/System/Library/Fonts/AppleSDGothicNeo.ttc"@, 0),
        ],
        Platform::Windows => seq![
            ("MalgunGothic"@, "C:\\Windows\\Fonts\\malgun.ttf"@, 0),
            ("YuGothic"@, "C:\\Windows\\Fonts\\YuGothM.ttc"@, 0),
            ("MicrosoftYaHei"@, "C:\\Windows\\Fonts\\msyh.ttc"@, 0),
            ("Meiryo"@, "C:\\Windows\\Fonts\\meiryo.ttc"@, 0),
        ],
        Platform::OtherUnix => seq![
            ("NotoSansKR-Regular"@, "/usr/share/fonts/opentype/noto/NotoSansKR-Regular.otf"@, 0),
            ("NotoSansJP-Regular"@, "/usr/share/fonts/opentype/noto/NotoSansJP-Regular.otf"@, 0),
            ("NotoSansSC-Regular"@, "/usr/share/fonts/opentype/noto/NotoSansSC-Regular.otf"@, 0),
            ("NanumGothic"@, "/usr/share/fonts/truetype/nanum/NanumGothic.ttf"@, 0),
            ("NotoSansCJK-Regular"@, "/usr/share/fonts/opentype/noto/NotoSansCJK-Regular.ttc"@, 0),
        ],
    }
}

fn candidate(name: &'static str, path: &'static str) -> (c: FontCandidate)
    ensures
        font_of(c) == (name@, path@, 0u32),
{
    FontCandidate { name, path, index: 0 }
}

/// The fonts that a system may have. The first that can be read is used.
pub fn cjk_font_candidates(platform: Platform) -> (out: Vec<FontCandidate>)
    ensures
        out@.map_values(|c: FontCandidate| font_of(c)) == known_fonts(platform),
{
    let mut out: Vec<FontCandidate> = Vec::new();
    match platform {
        Platform::MacOs => {
            out.push(candidate("AppleGothic", "/System/Library/Fonts/Supplemental/AppleGothic.ttf"));
            out.push(candidate("ArialUnicode", "/System/Library/Fonts/Supplemental/Arial Unicode.ttf"));
            out.push(candidate("HiraginoSansGB", "/System/Library/Fonts/Hiragino Sans GB.ttc"));
            out.push(candidate("PingFang", "/System/Library/Fonts/PingFang.ttc"));
            out.push(candidate("AppleSDGothicNeo", "/System/Library/Fonts/AppleSDGothicNeo.ttc"));
        },
        Platform::Windows => {
            out.push(candidate("MalgunGothic", "C:\\Windows\\Fonts\\malgun.ttf"));
            out.push(candidate("YuGothic", "C:\\Windows\\Fonts\\YuGothM.ttc"));
            out.push(candidate("MicrosoftYaHei", "C:\\Windows\\Fonts\\msyh.ttc"));
            out.push(candidate("Meiryo", "C:\\Windows\\Fonts\\meiryo.ttc"));
        },
        Platform::OtherUnix => {
            out.push(candidate("NotoSansKR-Regular", "/usr/share/fonts/opentype/noto/NotoSansKR-Regular.otf"));
            out.push(candidate("NotoSansJP-Regular", "/usr/share/fonts/opentype/noto/NotoSansJP-Regular.otf"));
            out.push(candidate("NotoSansSC-Regular", "/usr/share/fonts/opentype/noto/NotoSansSC-Regular.otf"));
            out.push(candidate("NanumGothic", "/usr/share/fonts/truetype/nanum/NanumGothic.ttf"));
            out.push(candidate("NotoSansCJK-Regular", "/usr/share/fonts/opentype/noto/NotoSansCJK-Regular.ttc"));
        },
    }
    proof {
        assert(out@.map_values(|c: FontCandidate| font_of(c)) =~= known_fonts(platform));
    }
    out
}

/// The fonts of a family, by which glyphs are looked for: that of the panels,
/// that of the language, and those that are there anyway.
pub open spec fn family_order(
    defaults: Seq<Seq<char>>,
    chrome: Option<Seq<char>>,
    cjk: Option<Seq<char>>,
) -> Seq<Seq<char>> {
    let front = match chrome {
        Some(name) => seq![name],
        None => Seq::empty(),
    };
    let middle = match cjk {
        Some(name) => seq![name],
        None => Seq::empty(),
    };
    front + middle + defaults
}

/// Puts the fonts of a family in order.
pub fn font_family(defaults: &[String], chrome: Option<&str>, cjk: Option<&str>) -> (out: Vec<
    String,
>)
    ensures
        views(out@) == family_order(
            views(defaults@),
            match chrome {
                Some(name) => Some(name@),
                None => None,
            },
            match cjk {
                Some(name) => Some(name@),
                None => None,
            },
        ),
{
    let mut out: Vec<String> = Vec::new();
    if let Some(name) = chrome {
        out.push(name.to_string());
    }
    let ghost front = views(out@);
    let ghost first = out@;
    if let Some(name) = cjk {
        out.push(name.to_string());
        proof {
            assert(views(out@) =~= views(first).push(name@));
        }
    }
    let ghost named = views(out@);
    let mut i: usize = 0;
    proof {
        match chrome {
            Some(name) => {
                assert(front =~= seq![name@]);
            },
            None => {
                assert(front =~= Seq::empty());
            },
        }
        match cjk {
            Some(name) => {
                assert(named =~= front + seq![name@]);
            },
            None => {
                assert(named =~= front + Seq::<Seq<char>>::empty());
            },
        }
        assert(views(out@) =~= named + views(defaults@).take(0));
    }
    while i < defaults.len()
        invariant
            i <= defaults@.len(),
            views(out@) == named + views(defaults@).take(i as int),
        decreases defaults.len() - i,
    {
        let ghost before = out@;
        out.push(defaults[i].clone());
        proof {
            assert(views(out@) =~= views(before).push(defaults@[i as int]@));
            assert(views(out@) =~= named + views(defaults@).take(i + 1));
        }
        i += 1;
    }
    proof {
        assert(views(defaults@).take(defaults@.len() as int) =~= views(defaults@));
    }
    out
}

} // verus!
