use vstd::prelude::*;

verus! {

/// The streaming platforms the engine can capture from.
#[derive(Debug, Clone, Copy, PartialEq, Eq, Structural)]
pub enum PlatformType {
    BiliBili,
    Douyin,
    Huya,
    Youtube,
}

/// The canonical lower-case name of each platform.
pub open spec fn spec_platform_str(p: PlatformType) -> Seq<char> {
    match p {
        PlatformType::BiliBili => "bilibili"@,
        PlatformType::Douyin => "douyin"@,
        PlatformType::Huya => "huya"@,
        PlatformType::Youtube => "youtube"@,
    }
}

/// The platform whose canonical name is `s`, if any.
pub open spec fn spec_platform_from(s: Seq<char>) -> Option<PlatformType> {
    if s == "bilibili"@ {
        Some(PlatformType::BiliBili)
    } else if s == "douyin"@ {
        Some(PlatformType::Douyin)
    } else if s == "huya"@ {
        Some(PlatformType::Huya)
    } else if s == "youtube"@ {
        Some(PlatformType::Youtube)
    } else {
        None
    }
}

impl PlatformType {
    /// The canonical lower-case name of the platform.
    pub fn as_str(&self) -> (r: &'static str)
        ensures
            r@ == spec_platform_str(*self),
    {
        match self {
            PlatformType::BiliBili => "bilibili",
            PlatformType::Douyin => "douyin",
            PlatformType::Huya => "huya",
            PlatformType::Youtube => "youtube",
        }
    }

    /// Parses a canonical platform name; `None` for any other string.
    pub fn from_str(s: &str) -> (r: Option<Self>)
        ensures
            r == spec_platform_from(s@),
    {
        if crate::strutil::str_eq(s, "bilibili") {
            Some(PlatformType::BiliBili)
        } else if crate::strutil::str_eq(s, "douyin") {
            Some(PlatformType::Douyin)
        } else if crate::strutil::str_eq(s, "huya") {
            Some(PlatformType::Huya)
        } else if crate::strutil::str_eq(s, "youtube") {
            Some(PlatformType::Youtube)
        } else {
            None
        }
    }
}

/// Round trip: every platform's canonical name parses back to the platform.
pub proof fn lemma_platform_name_round_trip(p: PlatformType)
    ensures
        spec_platform_from(spec_platform_str(p)) == Some(p),
{
    reveal_strlit("bilibili");
    reveal_strlit("douyin");
    reveal_strlit("huya");
    reveal_strlit("youtube");
    assert("douyin"@.len() == 6);
    assert("bilibili"@.len() == 8);
    assert("huya"@.len() == 4);
    assert("youtube"@.len() == 7);
    match p {
        PlatformType::BiliBili => {
            assert(spec_platform_from("bilibili"@) == Some(PlatformType::BiliBili));
        }
        PlatformType::Douyin => {
            assert(spec_platform_from("douyin"@) == Some(PlatformType::Douyin));
        }
        PlatformType::Huya => {
            assert(spec_platform_from("huya"@) == Some(PlatformType::Huya));
        }
        PlatformType::Youtube => {
            assert(spec_platform_from("youtube"@) == Some(PlatformType::Youtube));
        }
    }
}

} // verus!
