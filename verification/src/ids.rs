use vstd::prelude::*;

use crate::text::str_eq;

verus! {

/// Variety of controller that drives a player slot.
///
/// Every id the game does not define reads as `Unknown`, and so does every
/// wire name this build does not know.
#[derive(Clone, Copy, Debug, PartialEq, Eq, Hash, Structural)]
pub enum PlayerKind {
    Human,
    Cpu,
    Demo,
    Boss,
    Unknown,
}

impl PlayerKind {
    /// Every defined variant, in the order of their ids.
    pub const KNOWN: [PlayerKind; 4] = [
        PlayerKind::Human,
        PlayerKind::Cpu,
        PlayerKind::Demo,
        PlayerKind::Boss,
    ];

    pub open spec fn spec_from_raw(raw: i32) -> Self {
        match raw {
            0 => PlayerKind::Human,
            1 => PlayerKind::Cpu,
            2 => PlayerKind::Demo,
            4 => PlayerKind::Boss,
            _ => PlayerKind::Unknown,
        }
    }

    /// The variant the game means by `raw`.
    pub fn from_raw(raw: i32) -> (r: Self)
        ensures
            r == Self::spec_from_raw(raw),
    {
        match raw {
            0 => PlayerKind::Human,
            1 => PlayerKind::Cpu,
            2 => PlayerKind::Demo,
            4 => PlayerKind::Boss,
            _ => PlayerKind::Unknown,
        }
    }

    /// The wire name of the variant.
    pub open spec fn spec_name(self) -> Seq<char> {
        match self {
            PlayerKind::Human => seq!['H', 'M', 'N'],
            PlayerKind::Cpu => seq!['C', 'P', 'U'],
            PlayerKind::Demo => seq!['D', 'E', 'M', 'O'],
            PlayerKind::Boss => seq!['B', 'O', 'S', 'S'],
            PlayerKind::Unknown => seq!['?'],
        }
    }

    /// The variant whose wire name is `name`, `Unknown` for any other text.
    pub open spec fn spec_from_name(name: Seq<char>) -> Self {
        if name == PlayerKind::Human.spec_name() {
            PlayerKind::Human
        } else if name == PlayerKind::Cpu.spec_name() {
            PlayerKind::Cpu
        } else if name == PlayerKind::Demo.spec_name() {
            PlayerKind::Demo
        } else if name == PlayerKind::Boss.spec_name() {
            PlayerKind::Boss
        } else {
            PlayerKind::Unknown
        }
    }

    pub fn name(self) -> (r: &'static str)
        ensures
            r@ == self.spec_name(),
    {
        match self {
            PlayerKind::Human => {
                proof {
                    reveal_strlit("HMN");
                }
                "HMN"
            },
            PlayerKind::Cpu => {
                proof {
                    reveal_strlit("CPU");
                }
                "CPU"
            },
            PlayerKind::Demo => {
                proof {
                    reveal_strlit("DEMO");
                }
                "DEMO"
            },
            PlayerKind::Boss => {
                proof {
                    reveal_strlit("BOSS");
                }
                "BOSS"
            },
            PlayerKind::Unknown => {
                proof {
                    reveal_strlit("?");
                }
                "?"
            },
        }
    }

    /// Reads a wire name back.
    pub fn from_name(name: &str) -> (r: Self)
        ensures
            r == Self::spec_from_name(name@),
    {
        if str_eq(name, PlayerKind::Human.name()) {
            return PlayerKind::Human;
        }
        if str_eq(name, PlayerKind::Cpu.name()) {
            return PlayerKind::Cpu;
        }
        if str_eq(name, PlayerKind::Demo.name()) {
            return PlayerKind::Demo;
        }
        if str_eq(name, PlayerKind::Boss.name()) {
            return PlayerKind::Boss;
        }
        PlayerKind::Unknown
    }
}

/// The game's major scene, as the game numbers it.
///
/// Every id the game does not define reads as `Unknown`, and so does every
/// wire name this build does not know.
#[derive(Clone, Copy, Debug, PartialEq, Eq, Hash, Structural)]
pub enum GameMode {
    Title,
    Menu,
    Vs,
    Classic,
    Adventure,
    AllStar,
    Debug,
    DebugSoundTest,
    HanyuCss,
    HanyuSss,
    CameraMode,
    ToyGallery,
    ToyLottery,
    ToyCollection,
    DebugVs,
    TargetTest,
    SuperSuddenDeathVs,
    InvisibleVs,
    SlomoVs,
    LightningVs,
    ChallengerApproach,
    ClassicGover,
    AdventureGover,
    AllStarGover,
    OpeningMv,
    DebugCutscene,
    DebugGover,
    Tournament,
    Training,
    TinyVs,
    GiantVs,
    StaminaVs,
    HomeRunContest,
    TenManVs,
    HundredManVs,
    ThreeMinVs,
    FifteenMinVs,
    EndlessVs,
    CruelVs,
    ProgressiveScan,
    Boot,
    Memcard,
    CameraVs,
    Event,
    SingleButtonVs,
    Online,
    Unknown,
}

impl GameMode {
    /// Every defined variant, in the order of their ids.
    pub const KNOWN: [GameMode; 46] = [
        GameMode::Title,
        GameMode::Menu,
        GameMode::Vs,
        GameMode::Classic,
        GameMode::Adventure,
        GameMode::AllStar,
        GameMode::Debug,
        GameMode::DebugSoundTest,
        GameMode::HanyuCss,
        GameMode::HanyuSss,
        GameMode::CameraMode,
        GameMode::ToyGallery,
        GameMode::ToyLottery,
        GameMode::ToyCollection,
        GameMode::DebugVs,
        GameMode::TargetTest,
        GameMode::SuperSuddenDeathVs,
        GameMode::InvisibleVs,
        GameMode::SlomoVs,
        GameMode::LightningVs,
        GameMode::ChallengerApproach,
        GameMode::ClassicGover,
        GameMode::AdventureGover,
        GameMode::AllStarGover,
        GameMode::OpeningMv,
        GameMode::DebugCutscene,
        GameMode::DebugGover,
        GameMode::Tournament,
        GameMode::Training,
        GameMode::TinyVs,
        GameMode::GiantVs,
        GameMode::StaminaVs,
        GameMode::HomeRunContest,
        GameMode::TenManVs,
        GameMode::HundredManVs,
        GameMode::ThreeMinVs,
        GameMode::FifteenMinVs,
        GameMode::EndlessVs,
        GameMode::CruelVs,
        GameMode::ProgressiveScan,
        GameMode::Boot,
        GameMode::Memcard,
        GameMode::CameraVs,
        GameMode::Event,
        GameMode::SingleButtonVs,
        GameMode::Online,
    ];

    pub open spec fn spec_from_raw(raw: i32) -> Self {
        match raw {
            0 => GameMode::Title,
            1 => GameMode::Menu,
            2 => GameMode::Vs,
            3 => GameMode::Classic,
            4 => GameMode::Adventure,
            5 => GameMode::AllStar,
            6 => GameMode::Debug,
            7 => GameMode::DebugSoundTest,
            8 => GameMode::HanyuCss,
            9 => GameMode::HanyuSss,
            10 => GameMode::CameraMode,
            11 => GameMode::ToyGallery,
            12 => GameMode::ToyLottery,
            13 => GameMode::ToyCollection,
            14 => GameMode::DebugVs,
            15 => GameMode::TargetTest,
            16 => GameMode::SuperSuddenDeathVs,
            17 => GameMode::InvisibleVs,
            18 => GameMode::SlomoVs,
            19 => GameMode::LightningVs,
            20 => GameMode::ChallengerApproach,
            21 => GameMode::ClassicGover,
            22 => GameMode::AdventureGover,
            23 => GameMode::AllStarGover,
            24 => GameMode::OpeningMv,
            25 => GameMode::DebugCutscene,
            26 => GameMode::DebugGover,
            27 => GameMode::Tournament,
            28 => GameMode::Training,
            29 => GameMode::TinyVs,
            30 => GameMode::GiantVs,
            31 => GameMode::StaminaVs,
            32 => GameMode::HomeRunContest,
            33 => GameMode::TenManVs,
            34 => GameMode::HundredManVs,
            35 => GameMode::ThreeMinVs,
            36 => GameMode::FifteenMinVs,
            37 => GameMode::EndlessVs,
            38 => GameMode::CruelVs,
            39 => GameMode::ProgressiveScan,
            40 => GameMode::Boot,
            41 => GameMode::Memcard,
            42 => GameMode::CameraVs,
            43 => GameMode::Event,
            44 => GameMode::SingleButtonVs,
            45 => GameMode::Online,
            _ => GameMode::Unknown,
        }
    }

    /// The variant the game means by `raw`.
    pub fn from_raw(raw: i32) -> (r: Self)
        ensures
            r == Self::spec_from_raw(raw),
    {
        match raw {
            0 => GameMode::Title,
            1 => GameMode::Menu,
            2 => GameMode::Vs,
            3 => GameMode::Classic,
            4 => GameMode::Adventure,
            5 => GameMode::AllStar,
            6 => GameMode::Debug,
            7 => GameMode::DebugSoundTest,
            8 => GameMode::HanyuCss,
            9 => GameMode::HanyuSss,
            10 => GameMode::CameraMode,
            11 => GameMode::ToyGallery,
            12 => GameMode::ToyLottery,
            13 => GameMode::ToyCollection,
            14 => GameMode::DebugVs,
            15 => GameMode::TargetTest,
            16 => GameMode::SuperSuddenDeathVs,
            17 => GameMode::InvisibleVs,
            18 => GameMode::SlomoVs,
            19 => GameMode::LightningVs,
            20 => GameMode::ChallengerApproach,
            21 => GameMode::ClassicGover,
            22 => GameMode::AdventureGover,
            23 => GameMode::AllStarGover,
            24 => GameMode::OpeningMv,
            25 => GameMode::DebugCutscene,
            26 => GameMode::DebugGover,
            27 => GameMode::Tournament,
            28 => GameMode::Training,
            29 => GameMode::TinyVs,
            30 => GameMode::GiantVs,
            31 => GameMode::StaminaVs,
            32 => GameMode::HomeRunContest,
            33 => GameMode::TenManVs,
            34 => GameMode::HundredManVs,
            35 => GameMode::ThreeMinVs,
            36 => GameMode::FifteenMinVs,
            37 => GameMode::EndlessVs,
            38 => GameMode::CruelVs,
            39 => GameMode::ProgressiveScan,
            40 => GameMode::Boot,
            41 => GameMode::Memcard,
            42 => GameMode::CameraVs,
            43 => GameMode::Event,
            44 => GameMode::SingleButtonVs,
            45 => GameMode::Online,
            _ => GameMode::Unknown,
        }
    }

    /// The wire name of the variant.
    pub open spec fn spec_name(self) -> Seq<char> {
        match self {
            GameMode::Title => seq!['t', 'i', 't', 'l', 'e'],
            GameMode::Menu => seq!['m', 'e', 'n', 'u'],
            GameMode::Vs => seq!['v', 's'],
            GameMode::Classic => seq!['c', 'l', 'a', 's', 's', 'i', 'c'],
            GameMode::Adventure => seq!['a', 'd', 'v', 'e', 'n', 't', 'u', 'r', 'e'],
            GameMode::AllStar => seq!['a', 'l', 'l', 's', 't', 'a', 'r'],
            GameMode::Debug => seq!['d', 'e', 'b', 'u', 'g'],
            GameMode::DebugSoundTest => seq!['d', 'e', 'b', 'u', 'g', '_', 's', 'o', 'u', 'n', 'd', '_', 't', 'e', 's', 't'],
            GameMode::HanyuCss => seq!['h', 'a', 'n', 'y', 'u', '_', 'c', 's', 's'],
            GameMode::HanyuSss => seq!['h', 'a', 'n', 'y', 'u', '_', 's', 's', 's'],
            GameMode::CameraMode => seq!['c', 'a', 'm', 'e', 'r', 'a', '_', 'm', 'o', 'd', 'e'],
            GameMode::ToyGallery => seq!['t', 'o', 'y', '_', 'g', 'a', 'l', 'l', 'e', 'r', 'y'],
            GameMode::ToyLottery => seq!['t', 'o', 'y', '_', 'l', 'o', 't', 't', 'e', 'r', 'y'],
            GameMode::ToyCollection => seq!['t', 'o', 'y', '_', 'c', 'o', 'l', 'l', 'e', 'c', 't', 'i', 'o', 'n'],
            GameMode::DebugVs => seq!['d', 'e', 'b', 'u', 'g', '_', 'v', 's'],
            GameMode::TargetTest => seq!['t', 'a', 'r', 'g', 'e', 't', '_', 't', 'e', 's', 't'],
            GameMode::SuperSuddenDeathVs => seq!['s', 'u', 'p', 'e', 'r', '_', 's', 'u', 'd', 'd', 'e', 'n', '_', 'd', 'e', 'a', 't', 'h', '_', 'v', 's'],
            GameMode::InvisibleVs => seq!['i', 'n', 'v', 'i', 's', 'i', 'b', 'l', 'e', '_', 'v', 's'],
            GameMode::SlomoVs => seq!['s', 'l', 'o', 'm', 'o', '_', 'v', 's'],
            GameMode::LightningVs => seq!['l', 'i', 'g', 'h', 't', 'n', 'i', 'n', 'g', '_', 'v', 's'],
            GameMode::ChallengerApproach => seq!['c', 'h', 'a', 'l', 'l', 'e', 'n', 'g', 'e', 'r', '_', 'a', 'p', 'p', 'r', 'o', 'a', 'c', 'h'],
            GameMode::ClassicGover => seq!['c', 'l', 'a', 's', 's', 'i', 'c', '_', 'g', 'o', 'v', 'e', 'r'],
            GameMode::AdventureGover => seq!['a', 'd', 'v', 'e', 'n', 't', 'u', 'r', 'e', '_', 'g', 'o', 'v', 'e', 'r'],
            GameMode::AllStarGover => seq!['a', 'l', 'l', 's', 't', 'a', 'r', '_', 'g', 'o', 'v', 'e', 'r'],
            GameMode::OpeningMv => seq!['o', 'p', 'e', 'n', 'i', 'n', 'g', '_', 'm', 'v'],
            GameMode::DebugCutscene => seq!['d', 'e', 'b', 'u', 'g', '_', 'c', 'u', 't', 's', 'c', 'e', 'n', 'e'],
            GameMode::DebugGover => seq!['d', 'e', 'b', 'u', 'g', '_', 'g', 'o', 'v', 'e', 'r'],
            GameMode::Tournament => seq!['t', 'o', 'u', 'r', 'n', 'a', 'm', 'e', 'n', 't'],
            GameMode::Training => seq!['t', 'r', 'a', 'i', 'n', 'i', 'n', 'g'],
            GameMode::TinyVs => seq!['t', 'i', 'n', 'y', '_', 'v', 's'],
            GameMode::GiantVs => seq!['g', 'i', 'a', 'n', 't', '_', 'v', 's'],
            GameMode::StaminaVs => seq!['s', 't', 'a', 'm', 'i', 'n', 'a', '_', 'v', 's'],
            GameMode::HomeRunContest => seq!['h', 'o', 'm', 'e', '_', 'r', 'u', 'n', '_', 'c', 'o', 'n', 't', 'e', 's', 't'],
            GameMode::TenManVs => seq!['1', '0', 'm', 'a', 'n', '_', 'v', 's'],
            GameMode::HundredManVs => seq!['1', '0', '0', 'm', 'a', 'n', '_', 'v', 's'],
            GameMode::ThreeMinVs => seq!['3', 'm', 'i', 'n', '_', 'v', 's'],
            GameMode::FifteenMinVs => seq!['1', '5', 'm', 'i', 'n', '_', 'v', 's'],
            GameMode::EndlessVs => seq!['e', 'n', 'd', 'l', 'e', 's', 's', '_', 'v', 's'],
            GameMode::CruelVs => seq!['c', 'r', 'u', 'e', 'l', '_', 'v', 's'],
            GameMode::ProgressiveScan => seq!['p', 'r', 'o', 'g', 'r', 'e', 's', 's', 'i', 'v', 'e', '_', 's', 'c', 'a', 'n'],
            GameMode::Boot => seq!['b', 'o', 'o', 't'],
            GameMode::Memcard => seq!['m', 'e', 'm', 'c', 'a', 'r', 'd'],
            GameMode::CameraVs => seq!['c', 'a', 'm', 'e', 'r', 'a', '_', 'v', 's'],
            GameMode::Event => seq!['e', 'v', 'e', 'n', 't'],
            GameMode::SingleButtonVs => seq!['s', 'i', 'n', 'g', 'l', 'e', '_', 'b', 'u', 't', 't', 'o', 'n', '_', 'v', 's'],
            GameMode::Online => seq!['o', 'n', 'l', 'i', 'n', 'e'],
            GameMode::Unknown => seq!['u', 'n', 'k', 'n', 'o', 'w', 'n'],
        }
    }

    /// The variant whose wire name is `name`, `Unknown` for any other text.
    pub open spec fn spec_from_name(name: Seq<char>) -> Self {
        if name == GameMode::Title.spec_name() {
            GameMode::Title
        } else if name == GameMode::Menu.spec_name() {
            GameMode::Menu
        } else if name == GameMode::Vs.spec_name() {
            GameMode::Vs
        } else if name == GameMode::Classic.spec_name() {
            GameMode::Classic
        } else if name == GameMode::Adventure.spec_name() {
            GameMode::Adventure
        } else if name == GameMode::AllStar.spec_name() {
            GameMode::AllStar
        } else if name == GameMode::Debug.spec_name() {
            GameMode::Debug
        } else if name == GameMode::DebugSoundTest.spec_name() {
            GameMode::DebugSoundTest
        } else if name == GameMode::HanyuCss.spec_name() {
            GameMode::HanyuCss
        } else if name == GameMode::HanyuSss.spec_name() {
            GameMode::HanyuSss
        } else if name == GameMode::CameraMode.spec_name() {
            GameMode::CameraMode
        } else if name == GameMode::ToyGallery.spec_name() {
            GameMode::ToyGallery
        } else if name == GameMode::ToyLottery.spec_name() {
            GameMode::ToyLottery
        } else if name == GameMode::ToyCollection.spec_name() {
            GameMode::ToyCollection
        } else if name == GameMode::DebugVs.spec_name() {
            GameMode::DebugVs
        } else if name == GameMode::TargetTest.spec_name() {
            GameMode::TargetTest
        } else if name == GameMode::SuperSuddenDeathVs.spec_name() {
            GameMode::SuperSuddenDeathVs
        } else if name == GameMode::InvisibleVs.spec_name() {
            GameMode::InvisibleVs
        } else if name == GameMode::SlomoVs.spec_name() {
            GameMode::SlomoVs
        } else if name == GameMode::LightningVs.spec_name() {
            GameMode::LightningVs
        } else if name == GameMode::ChallengerApproach.spec_name() {
            GameMode::ChallengerApproach
        } else if name == GameMode::ClassicGover.spec_name() {
            GameMode::ClassicGover
        } else if name == GameMode::AdventureGover.spec_name() {
            GameMode::AdventureGover
        } else if name == GameMode::AllStarGover.spec_name() {
            GameMode::AllStarGover
        } else if name == GameMode::OpeningMv.spec_name() {
            GameMode::OpeningMv
        } else if name == GameMode::DebugCutscene.spec_name() {
            GameMode::DebugCutscene
        } else if name == GameMode::DebugGover.spec_name() {
            GameMode::DebugGover
        } else if name == GameMode::Tournament.spec_name() {
            GameMode::Tournament
        } else if name == GameMode::Training.spec_name() {
            GameMode::Training
        } else if name == GameMode::TinyVs.spec_name() {
            GameMode::TinyVs
        } else if name == GameMode::GiantVs.spec_name() {
            GameMode::GiantVs
        } else if name == GameMode::StaminaVs.spec_name() {
            GameMode::StaminaVs
        } else if name == GameMode::HomeRunContest.spec_name() {
            GameMode::HomeRunContest
        } else if name == GameMode::TenManVs.spec_name() {
            GameMode::TenManVs
        } else if name == GameMode::HundredManVs.spec_name() {
            GameMode::HundredManVs
        } else if name == GameMode::ThreeMinVs.spec_name() {
            GameMode::ThreeMinVs
        } else if name == GameMode::FifteenMinVs.spec_name() {
            GameMode::FifteenMinVs
        } else if name == GameMode::EndlessVs.spec_name() {
            GameMode::EndlessVs
        } else if name == GameMode::CruelVs.spec_name() {
            GameMode::CruelVs
        } else if name == GameMode::ProgressiveScan.spec_name() {
            GameMode::ProgressiveScan
        } else if name == GameMode::Boot.spec_name() {
            GameMode::Boot
        } else if name == GameMode::Memcard.spec_name() {
            GameMode::Memcard
        } else if name == GameMode::CameraVs.spec_name() {
            GameMode::CameraVs
        } else if name == GameMode::Event.spec_name() {
            GameMode::Event
        } else if name == GameMode::SingleButtonVs.spec_name() {
            GameMode::SingleButtonVs
        } else if name == GameMode::Online.spec_name() {
            GameMode::Online
        } else {
            GameMode::Unknown
        }
    }

    pub fn name(self) -> (r: &'static str)
        ensures
            r@ == self.spec_name(),
    {
        match self {
            GameMode::Title => {
                proof {
                    reveal_strlit("title");
                }
                "title"
            },
            GameMode::Menu => {
                proof {
                    reveal_strlit("menu");
                }
                "menu"
            },
            GameMode::Vs => {
                proof {
                    reveal_strlit("vs");
                }
                "vs"
            },
            GameMode::Classic => {
                proof {
                    reveal_strlit("classic");
                }
                "classic"
            },
            GameMode::Adventure => {
                proof {
                    reveal_strlit("adventure");
                }
                "adventure"
            },
            GameMode::AllStar => {
                proof {
                    reveal_strlit("allstar");
                }
                "allstar"
            },
            GameMode::Debug => {
                proof {
                    reveal_strlit("debug");
                }
                "debug"
            },
            GameMode::DebugSoundTest => {
                proof {
                    reveal_strlit("debug_sound_test");
                }
                "debug_sound_test"
            },
            GameMode::HanyuCss => {
                proof {
                    reveal_strlit("hanyu_css");
                }
                "hanyu_css"
            },
            GameMode::HanyuSss => {
                proof {
                    reveal_strlit("hanyu_sss");
                }
                "hanyu_sss"
            },
            GameMode::CameraMode => {
                proof {
                    reveal_strlit("camera_mode");
                }
                "camera_mode"
            },
            GameMode::ToyGallery => {
                proof {
                    reveal_strlit("toy_gallery");
                }
                "toy_gallery"
            },
            GameMode::ToyLottery => {
                proof {
                    reveal_strlit("toy_lottery");
                }
                "toy_lottery"
            },
            GameMode::ToyCollection => {
                proof {
                    reveal_strlit("toy_collection");
                }
                "toy_collection"
            },
            GameMode::DebugVs => {
                proof {
                    reveal_strlit("debug_vs");
                }
                "debug_vs"
            },
            GameMode::TargetTest => {
                proof {
                    reveal_strlit("target_test");
                }
                "target_test"
            },
            GameMode::SuperSuddenDeathVs => {
                proof {
                    reveal_strlit("super_sudden_death_vs");
                }
                "super_sudden_death_vs"
            },
            GameMode::InvisibleVs => {
                proof {
                    reveal_strlit("invisible_vs");
                }
                "invisible_vs"
            },
            GameMode::SlomoVs => {
                proof {
                    reveal_strlit("slomo_vs");
                }
                "slomo_vs"
            },
            GameMode::LightningVs => {
                proof {
                    reveal_strlit("lightning_vs");
                }
                "lightning_vs"
            },
            GameMode::ChallengerApproach => {
                proof {
                    reveal_strlit("challenger_approach");
                }
                "challenger_approach"
            },
            GameMode::ClassicGover => {
                proof {
                    reveal_strlit("classic_gover");
                }
                "classic_gover"
            },
            GameMode::AdventureGover => {
                proof {
                    reveal_strlit("adventure_gover");
                }
                "adventure_gover"
            },
            GameMode::AllStarGover => {
                proof {
                    reveal_strlit("allstar_gover");
                }
                "allstar_gover"
            },
            GameMode::OpeningMv => {
                proof {
                    reveal_strlit("opening_mv");
                }
                "opening_mv"
            },
            GameMode::DebugCutscene => {
                proof {
                    reveal_strlit("debug_cutscene");
                }
                "debug_cutscene"
            },
            GameMode::DebugGover => {
                proof {
                    reveal_strlit("debug_gover");
                }
                "debug_gover"
            },
            GameMode::Tournament => {
                proof {
                    reveal_strlit("tournament");
                }
                "tournament"
            },
            GameMode::Training => {
                proof {
                    reveal_strlit("training");
                }
                "training"
            },
            GameMode::TinyVs => {
                proof {
                    reveal_strlit("tiny_vs");
                }
                "tiny_vs"
            },
            GameMode::GiantVs => {
                proof {
                    reveal_strlit("giant_vs");
                }
                "giant_vs"
            },
            GameMode::StaminaVs => {
                proof {
                    reveal_strlit("stamina_vs");
                }
                "stamina_vs"
            },
            GameMode::HomeRunContest => {
                proof {
                    reveal_strlit("home_run_contest");
                }
                "home_run_contest"
            },
            GameMode::TenManVs => {
                proof {
                    reveal_strlit("10man_vs");
                }
                "10man_vs"
            },
            GameMode::HundredManVs => {
                proof {
                    reveal_strlit("100man_vs");
                }
                "100man_vs"
            },
            GameMode::ThreeMinVs => {
                proof {
                    reveal_strlit("3min_vs");
                }
                "3min_vs"
            },
            GameMode::FifteenMinVs => {
                proof {
                    reveal_strlit("15min_vs");
                }
                "15min_vs"
            },
            GameMode::EndlessVs => {
                proof {
                    reveal_strlit("endless_vs");
                }
                "endless_vs"
            },
            GameMode::CruelVs => {
                proof {
                    reveal_strlit("cruel_vs");
                }
                "cruel_vs"
            },
            GameMode::ProgressiveScan => {
                proof {
                    reveal_strlit("progressive_scan");
                }
                "progressive_scan"
            },
            GameMode::Boot => {
                proof {
                    reveal_strlit("boot");
                }
                "boot"
            },
            GameMode::Memcard => {
                proof {
                    reveal_strlit("memcard");
                }
                "memcard"
            },
            GameMode::CameraVs => {
                proof {
                    reveal_strlit("camera_vs");
                }
                "camera_vs"
            },
            GameMode::Event => {
                proof {
                    reveal_strlit("event");
                }
                "event"
            },
            GameMode::SingleButtonVs => {
                proof {
                    reveal_strlit("single_button_vs");
                }
                "single_button_vs"
            },
            GameMode::Online => {
                proof {
                    reveal_strlit("online");
                }
                "online"
            },
            GameMode::Unknown => {
                proof {
                    reveal_strlit("unknown");
                }
                "unknown"
            },
        }
    }

    /// Reads a wire name back.
    pub fn from_name(name: &str) -> (r: Self)
        ensures
            r == Self::spec_from_name(name@),
    {
        if str_eq(name, GameMode::Title.name()) {
            return GameMode::Title;
        }
        if str_eq(name, GameMode::Menu.name()) {
            return GameMode::Menu;
        }
        if str_eq(name, GameMode::Vs.name()) {
            return GameMode::Vs;
        }
        if str_eq(name, GameMode::Classic.name()) {
            return GameMode::Classic;
        }
        if str_eq(name, GameMode::Adventure.name()) {
            return GameMode::Adventure;
        }
        if str_eq(name, GameMode::AllStar.name()) {
            return GameMode::AllStar;
        }
        if str_eq(name, GameMode::Debug.name()) {
            return GameMode::Debug;
        }
        if str_eq(name, GameMode::DebugSoundTest.name()) {
            return GameMode::DebugSoundTest;
        }
        if str_eq(name, GameMode::HanyuCss.name()) {
            return GameMode::HanyuCss;
        }
        if str_eq(name, GameMode::HanyuSss.name()) {
            return GameMode::HanyuSss;
        }
        if str_eq(name, GameMode::CameraMode.name()) {
            return GameMode::CameraMode;
        }
        if str_eq(name, GameMode::ToyGallery.name()) {
            return GameMode::ToyGallery;
        }
        if str_eq(name, GameMode::ToyLottery.name()) {
            return GameMode::ToyLottery;
        }
        if str_eq(name, GameMode::ToyCollection.name()) {
            return GameMode::ToyCollection;
        }
        if str_eq(name, GameMode::DebugVs.name()) {
            return GameMode::DebugVs;
        }
        if str_eq(name, GameMode::TargetTest.name()) {
            return GameMode::TargetTest;
        }
        if str_eq(name, GameMode::SuperSuddenDeathVs.name()) {
            return GameMode::SuperSuddenDeathVs;
        }
        if str_eq(name, GameMode::InvisibleVs.name()) {
            return GameMode::InvisibleVs;
        }
        if str_eq(name, GameMode::SlomoVs.name()) {
            return GameMode::SlomoVs;
        }
        if str_eq(name, GameMode::LightningVs.name()) {
            return GameMode::LightningVs;
        }
        if str_eq(name, GameMode::ChallengerApproach.name()) {
            return GameMode::ChallengerApproach;
        }
        if str_eq(name, GameMode::ClassicGover.name()) {
            return GameMode::ClassicGover;
        }
        if str_eq(name, GameMode::AdventureGover.name()) {
            return GameMode::AdventureGover;
        }
        if str_eq(name, GameMode::AllStarGover.name()) {
            return GameMode::AllStarGover;
        }
        if str_eq(name, GameMode::OpeningMv.name()) {
            return GameMode::OpeningMv;
        }
        if str_eq(name, GameMode::DebugCutscene.name()) {
            return GameMode::DebugCutscene;
        }
        if str_eq(name, GameMode::DebugGover.name()) {
            return GameMode::DebugGover;
        }
        if str_eq(name, GameMode::Tournament.name()) {
            return GameMode::Tournament;
        }
        if str_eq(name, GameMode::Training.name()) {
            return GameMode::Training;
        }
        if str_eq(name, GameMode::TinyVs.name()) {
            return GameMode::TinyVs;
        }
        if str_eq(name, GameMode::GiantVs.name()) {
            return GameMode::GiantVs;
        }
        if str_eq(name, GameMode::StaminaVs.name()) {
            return GameMode::StaminaVs;
        }
        if str_eq(name, GameMode::HomeRunContest.name()) {
            return GameMode::HomeRunContest;
        }
        if str_eq(name, GameMode::TenManVs.name()) {
            return GameMode::TenManVs;
        }
        if str_eq(name, GameMode::HundredManVs.name()) {
            return GameMode::HundredManVs;
        }
        if str_eq(name, GameMode::ThreeMinVs.name()) {
            return GameMode::ThreeMinVs;
        }
        if str_eq(name, GameMode::FifteenMinVs.name()) {
            return GameMode::FifteenMinVs;
        }
        if str_eq(name, GameMode::EndlessVs.name()) {
            return GameMode::EndlessVs;
        }
        if str_eq(name, GameMode::CruelVs.name()) {
            return GameMode::CruelVs;
        }
        if str_eq(name, GameMode::ProgressiveScan.name()) {
            return GameMode::ProgressiveScan;
        }
        if str_eq(name, GameMode::Boot.name()) {
            return GameMode::Boot;
        }
        if str_eq(name, GameMode::Memcard.name()) {
            return GameMode::Memcard;
        }
        if str_eq(name, GameMode::CameraVs.name()) {
            return GameMode::CameraVs;
        }
        if str_eq(name, GameMode::Event.name()) {
            return GameMode::Event;
        }
        if str_eq(name, GameMode::SingleButtonVs.name()) {
            return GameMode::SingleButtonVs;
        }
        if str_eq(name, GameMode::Online.name()) {
            return GameMode::Online;
        }
        GameMode::Unknown
    }
}

/// A fighter, in the game's internal character order.
///
/// Every id the game does not define reads as `Unknown`, and so does every
/// wire name this build does not know.
#[derive(Clone, Copy, Debug, PartialEq, Eq, Hash, Structural)]
pub enum Character {
    CaptainFalcon,
    DonkeyKong,
    Fox,
    GameAndWatch,
    Kirby,
    Bowser,
    Link,
    Luigi,
    Mario,
    Marth,
    Mewtwo,
    Ness,
    Peach,
    Pikachu,
    IceClimbers,
    Jigglypuff,
    Samus,
    Yoshi,
    Zelda,
    Sheik,
    Falco,
    YoungLink,
    DrMario,
    Roy,
    Pichu,
    Ganondorf,
    MasterHand,
    MaleWireframe,
    FemaleWireframe,
    GigaBowser,
    CrazyHand,
    Sandbag,
    Popo,
    Unknown,
}

impl Character {
    /// Every defined variant, in the order of their ids.
    pub const KNOWN: [Character; 33] = [
        Character::CaptainFalcon,
        Character::DonkeyKong,
        Character::Fox,
        Character::GameAndWatch,
        Character::Kirby,
        Character::Bowser,
        Character::Link,
        Character::Luigi,
        Character::Mario,
        Character::Marth,
        Character::Mewtwo,
        Character::Ness,
        Character::Peach,
        Character::Pikachu,
        Character::IceClimbers,
        Character::Jigglypuff,
        Character::Samus,
        Character::Yoshi,
        Character::Zelda,
        Character::Sheik,
        Character::Falco,
        Character::YoungLink,
        Character::DrMario,
        Character::Roy,
        Character::Pichu,
        Character::Ganondorf,
        Character::MasterHand,
        Character::MaleWireframe,
        Character::FemaleWireframe,
        Character::GigaBowser,
        Character::CrazyHand,
        Character::Sandbag,
        Character::Popo,
    ];

    pub open spec fn spec_from_raw(raw: i32) -> Self {
        match raw {
            0 => Character::CaptainFalcon,
            1 => Character::DonkeyKong,
            2 => Character::Fox,
            3 => Character::GameAndWatch,
            4 => Character::Kirby,
            5 => Character::Bowser,
            6 => Character::Link,
            7 => Character::Luigi,
            8 => Character::Mario,
            9 => Character::Marth,
            10 => Character::Mewtwo,
            11 => Character::Ness,
            12 => Character::Peach,
            13 => Character::Pikachu,
            14 => Character::IceClimbers,
            15 => Character::Jigglypuff,
            16 => Character::Samus,
            17 => Character::Yoshi,
            18 => Character::Zelda,
            19 => Character::Sheik,
            20 => Character::Falco,
            21 => Character::YoungLink,
            22 => Character::DrMario,
            23 => Character::Roy,
            24 => Character::Pichu,
            25 => Character::Ganondorf,
            26 => Character::MasterHand,
            27 => Character::MaleWireframe,
            28 => Character::FemaleWireframe,
            29 => Character::GigaBowser,
            30 => Character::CrazyHand,
            31 => Character::Sandbag,
            32 => Character::Popo,
            _ => Character::Unknown,
        }
    }

    /// The variant the game means by `raw`.
    pub fn from_raw(raw: i32) -> (r: Self)
        ensures
            r == Self::spec_from_raw(raw),
    {
        match raw {
            0 => Character::CaptainFalcon,
            1 => Character::DonkeyKong,
            2 => Character::Fox,
            3 => Character::GameAndWatch,
            4 => Character::Kirby,
            5 => Character::Bowser,
            6 => Character::Link,
            7 => Character::Luigi,
            8 => Character::Mario,
            9 => Character::Marth,
            10 => Character::Mewtwo,
            11 => Character::Ness,
            12 => Character::Peach,
            13 => Character::Pikachu,
            14 => Character::IceClimbers,
            15 => Character::Jigglypuff,
            16 => Character::Samus,
            17 => Character::Yoshi,
            18 => Character::Zelda,
            19 => Character::Sheik,
            20 => Character::Falco,
            21 => Character::YoungLink,
            22 => Character::DrMario,
            23 => Character::Roy,
            24 => Character::Pichu,
            25 => Character::Ganondorf,
            26 => Character::MasterHand,
            27 => Character::MaleWireframe,
            28 => Character::FemaleWireframe,
            29 => Character::GigaBowser,
            30 => Character::CrazyHand,
            31 => Character::Sandbag,
            32 => Character::Popo,
            _ => Character::Unknown,
        }
    }

    /// The wire name of the variant.
    pub open spec fn spec_name(self) -> Seq<char> {
        match self {
            Character::CaptainFalcon => seq!['C', 'a', 'p', 't', 'a', 'i', 'n', ' ', 'F', 'a', 'l', 'c', 'o', 'n'],
            Character::DonkeyKong => seq!['D', 'o', 'n', 'k', 'e', 'y', ' ', 'K', 'o', 'n', 'g'],
            Character::Fox => seq!['F', 'o', 'x'],
            Character::GameAndWatch => seq!['M', 'r', '.', ' ', 'G', 'a', 'm', 'e', ' ', '&', ' ', 'W', 'a', 't', 'c', 'h'],
            Character::Kirby => seq!['K', 'i', 'r', 'b', 'y'],
            Character::Bowser => seq!['B', 'o', 'w', 's', 'e', 'r'],
            Character::Link => seq!['L', 'i', 'n', 'k'],
            Character::Luigi => seq!['L', 'u', 'i', 'g', 'i'],
            Character::Mario => seq!['M', 'a', 'r', 'i', 'o'],
            Character::Marth => seq!['M', 'a', 'r', 't', 'h'],
            Character::Mewtwo => seq!['M', 'e', 'w', 't', 'w', 'o'],
            Character::Ness => seq!['N', 'e', 's', 's'],
            Character::Peach => seq!['P', 'e', 'a', 'c', 'h'],
            Character::Pikachu => seq!['P', 'i', 'k', 'a', 'c', 'h', 'u'],
            Character::IceClimbers => seq!['I', 'c', 'e', ' ', 'C', 'l', 'i', 'm', 'b', 'e', 'r', 's'],
            Character::Jigglypuff => seq!['J', 'i', 'g', 'g', 'l', 'y', 'p', 'u', 'f', 'f'],
            Character::Samus => seq!['S', 'a', 'm', 'u', 's'],
            Character::Yoshi => seq!['Y', 'o', 's', 'h', 'i'],
            Character::Zelda => seq!['Z', 'e', 'l', 'd', 'a'],
            Character::Sheik => seq!['S', 'h', 'e', 'i', 'k'],
            Character::Falco => seq!['F', 'a', 'l', 'c', 'o'],
            Character::YoungLink => seq!['Y', 'o', 'u', 'n', 'g', ' ', 'L', 'i', 'n', 'k'],
            Character::DrMario => seq!['D', 'r', '.', ' ', 'M', 'a', 'r', 'i', 'o'],
            Character::Roy => seq!['R', 'o', 'y'],
            Character::Pichu => seq!['P', 'i', 'c', 'h', 'u'],
            Character::Ganondorf => seq!['G', 'a', 'n', 'o', 'n', 'd', 'o', 'r', 'f'],
            Character::MasterHand => seq!['M', 'a', 's', 't', 'e', 'r', ' ', 'H', 'a', 'n', 'd'],
            Character::MaleWireframe => seq!['M', 'a', 'l', 'e', ' ', 'W', 'i', 'r', 'e', 'f', 'r', 'a', 'm', 'e'],
            Character::FemaleWireframe => seq!['F', 'e', 'm', 'a', 'l', 'e', ' ', 'W', 'i', 'r', 'e', 'f', 'r', 'a', 'm', 'e'],
            Character::GigaBowser => seq!['G', 'i', 'g', 'a', ' ', 'B', 'o', 'w', 's', 'e', 'r'],
            Character::CrazyHand => seq!['C', 'r', 'a', 'z', 'y', ' ', 'H', 'a', 'n', 'd'],
            Character::Sandbag => seq!['S', 'a', 'n', 'd', 'b', 'a', 'g'],
            Character::Popo => seq!['P', 'o', 'p', 'o'],
            Character::Unknown => seq!['U', 'n', 'k', 'n', 'o', 'w', 'n'],
        }
    }

    /// The variant whose wire name is `name`, `Unknown` for any other text.
    pub open spec fn spec_from_name(name: Seq<char>) -> Self {
        if name == Character::CaptainFalcon.spec_name() {
            Character::CaptainFalcon
        } else if name == Character::DonkeyKong.spec_name() {
            Character::DonkeyKong
        } else if name == Character::Fox.spec_name() {
            Character::Fox
        } else if name == Character::GameAndWatch.spec_name() {
            Character::GameAndWatch
        } else if name == Character::Kirby.spec_name() {
            Character::Kirby
        } else if name == Character::Bowser.spec_name() {
            Character::Bowser
        } else if name == Character::Link.spec_name() {
            Character::Link
        } else if name == Character::Luigi.spec_name() {
            Character::Luigi
        } else if name == Character::Mario.spec_name() {
            Character::Mario
        } else if name == Character::Marth.spec_name() {
            Character::Marth
        } else if name == Character::Mewtwo.spec_name() {
            Character::Mewtwo
        } else if name == Character::Ness.spec_name() {
            Character::Ness
        } else if name == Character::Peach.spec_name() {
            Character::Peach
        } else if name == Character::Pikachu.spec_name() {
            Character::Pikachu
        } else if name == Character::IceClimbers.spec_name() {
            Character::IceClimbers
        } else if name == Character::Jigglypuff.spec_name() {
            Character::Jigglypuff
        } else if name == Character::Samus.spec_name() {
            Character::Samus
        } else if name == Character::Yoshi.spec_name() {
            Character::Yoshi
        } else if name == Character::Zelda.spec_name() {
            Character::Zelda
        } else if name == Character::Sheik.spec_name() {
            Character::Sheik
        } else if name == Character::Falco.spec_name() {
            Character::Falco
        } else if name == Character::YoungLink.spec_name() {
            Character::YoungLink
        } else if name == Character::DrMario.spec_name() {
            Character::DrMario
        } else if name == Character::Roy.spec_name() {
            Character::Roy
        } else if name == Character::Pichu.spec_name() {
            Character::Pichu
        } else if name == Character::Ganondorf.spec_name() {
            Character::Ganondorf
        } else if name == Character::MasterHand.spec_name() {
            Character::MasterHand
        } else if name == Character::MaleWireframe.spec_name() {
            Character::MaleWireframe
        } else if name == Character::FemaleWireframe.spec_name() {
            Character::FemaleWireframe
        } else if name == Character::GigaBowser.spec_name() {
            Character::GigaBowser
        } else if name == Character::CrazyHand.spec_name() {
            Character::CrazyHand
        } else if name == Character::Sandbag.spec_name() {
            Character::Sandbag
        } else if name == Character::Popo.spec_name() {
            Character::Popo
        } else {
            Character::Unknown
        }
    }

    pub fn name(self) -> (r: &'static str)
        ensures
            r@ == self.spec_name(),
    {
        match self {
            Character::CaptainFalcon => {
                proof {
                    reveal_strlit("Captain Falcon");
                }
                "Captain Falcon"
            },
            Character::DonkeyKong => {
                proof {
                    reveal_strlit("Donkey Kong");
                }
                "Donkey Kong"
            },
            Character::Fox => {
                proof {
                    reveal_strlit("Fox");
                }
                "Fox"
            },
            Character::GameAndWatch => {
                proof {
                    reveal_strlit("Mr. Game & Watch");
                }
                "Mr. Game & Watch"
            },
            Character::Kirby => {
                proof {
                    reveal_strlit("Kirby");
                }
                "Kirby"
            },
            Character::Bowser => {
                proof {
                    reveal_strlit("Bowser");
                }
                "Bowser"
            },
            Character::Link => {
                proof {
                    reveal_strlit("Link");
                }
                "Link"
            },
            Character::Luigi => {
                proof {
                    reveal_strlit("Luigi");
                }
                "Luigi"
            },
            Character::Mario => {
                proof {
                    reveal_strlit("Mario");
                }
                "Mario"
            },
            Character::Marth => {
                proof {
                    reveal_strlit("Marth");
                }
                "Marth"
            },
            Character::Mewtwo => {
                proof {
                    reveal_strlit("Mewtwo");
                }
                "Mewtwo"
            },
            Character::Ness => {
                proof {
                    reveal_strlit("Ness");
                }
                "Ness"
            },
            Character::Peach => {
                proof {
                    reveal_strlit("Peach");
                }
                "Peach"
            },
            Character::Pikachu => {
                proof {
                    reveal_strlit("Pikachu");
                }
                "Pikachu"
            },
            Character::IceClimbers => {
                proof {
                    reveal_strlit("Ice Climbers");
                }
                "Ice Climbers"
            },
            Character::Jigglypuff => {
                proof {
                    reveal_strlit("Jigglypuff");
                }
                "Jigglypuff"
            },
            Character::Samus => {
                proof {
                    reveal_strlit("Samus");
                }
                "Samus"
            },
            Character::Yoshi => {
                proof {
                    reveal_strlit("Yoshi");
                }
                "Yoshi"
            },
            Character::Zelda => {
                proof {
                    reveal_strlit("Zelda");
                }
                "Zelda"
            },
            Character::Sheik => {
                proof {
                    reveal_strlit("Sheik");
                }
                "Sheik"
            },
            Character::Falco => {
                proof {
                    reveal_strlit("Falco");
                }
                "Falco"
            },
            Character::YoungLink => {
                proof {
                    reveal_strlit("Young Link");
                }
                "Young Link"
            },
            Character::DrMario => {
                proof {
                    reveal_strlit("Dr. Mario");
                }
                "Dr. Mario"
            },
            Character::Roy => {
                proof {
                    reveal_strlit("Roy");
                }
                "Roy"
            },
            Character::Pichu => {
                proof {
                    reveal_strlit("Pichu");
                }
                "Pichu"
            },
            Character::Ganondorf => {
                proof {
                    reveal_strlit("Ganondorf");
                }
                "Ganondorf"
            },
            Character::MasterHand => {
                proof {
                    reveal_strlit("Master Hand");
                }
                "Master Hand"
            },
            Character::MaleWireframe => {
                proof {
                    reveal_strlit("Male Wireframe");
                }
                "Male Wireframe"
            },
            Character::FemaleWireframe => {
                proof {
                    reveal_strlit("Female Wireframe");
                }
                "Female Wireframe"
            },
            Character::GigaBowser => {
                proof {
                    reveal_strlit("Giga Bowser");
                }
                "Giga Bowser"
            },
            Character::CrazyHand => {
                proof {
                    reveal_strlit("Crazy Hand");
                }
                "Crazy Hand"
            },
            Character::Sandbag => {
                proof {
                    reveal_strlit("Sandbag");
                }
                "Sandbag"
            },
            Character::Popo => {
                proof {
                    reveal_strlit("Popo");
                }
                "Popo"
            },
            Character::Unknown => {
                proof {
                    reveal_strlit("Unknown");
                }
                "Unknown"
            },
        }
    }

    /// Reads a wire name back.
    pub fn from_name(name: &str) -> (r: Self)
        ensures
            r == Self::spec_from_name(name@),
    {
        if str_eq(name, Character::CaptainFalcon.name()) {
            return Character::CaptainFalcon;
        }
        if str_eq(name, Character::DonkeyKong.name()) {
            return Character::DonkeyKong;
        }
        if str_eq(name, Character::Fox.name()) {
            return Character::Fox;
        }
        if str_eq(name, Character::GameAndWatch.name()) {
            return Character::GameAndWatch;
        }
        if str_eq(name, Character::Kirby.name()) {
            return Character::Kirby;
        }
        if str_eq(name, Character::Bowser.name()) {
            return Character::Bowser;
        }
        if str_eq(name, Character::Link.name()) {
            return Character::Link;
        }
        if str_eq(name, Character::Luigi.name()) {
            return Character::Luigi;
        }
        if str_eq(name, Character::Mario.name()) {
            return Character::Mario;
        }
        if str_eq(name, Character::Marth.name()) {
            return Character::Marth;
        }
        if str_eq(name, Character::Mewtwo.name()) {
            return Character::Mewtwo;
        }
        if str_eq(name, Character::Ness.name()) {
            return Character::Ness;
        }
        if str_eq(name, Character::Peach.name()) {
            return Character::Peach;
        }
        if str_eq(name, Character::Pikachu.name()) {
            return Character::Pikachu;
        }
        if str_eq(name, Character::IceClimbers.name()) {
            return Character::IceClimbers;
        }
        if str_eq(name, Character::Jigglypuff.name()) {
            return Character::Jigglypuff;
        }
        if str_eq(name, Character::Samus.name()) {
            return Character::Samus;
        }
        if str_eq(name, Character::Yoshi.name()) {
            return Character::Yoshi;
        }
        if str_eq(name, Character::Zelda.name()) {
            return Character::Zelda;
        }
        if str_eq(name, Character::Sheik.name()) {
            return Character::Sheik;
        }
        if str_eq(name, Character::Falco.name()) {
            return Character::Falco;
        }
        if str_eq(name, Character::YoungLink.name()) {
            return Character::YoungLink;
        }
        if str_eq(name, Character::DrMario.name()) {
            return Character::DrMario;
        }
        if str_eq(name, Character::Roy.name()) {
            return Character::Roy;
        }
        if str_eq(name, Character::Pichu.name()) {
            return Character::Pichu;
        }
        if str_eq(name, Character::Ganondorf.name()) {
            return Character::Ganondorf;
        }
        if str_eq(name, Character::MasterHand.name()) {
            return Character::MasterHand;
        }
        if str_eq(name, Character::MaleWireframe.name()) {
            return Character::MaleWireframe;
        }
        if str_eq(name, Character::FemaleWireframe.name()) {
            return Character::FemaleWireframe;
        }
        if str_eq(name, Character::GigaBowser.name()) {
            return Character::GigaBowser;
        }
        if str_eq(name, Character::CrazyHand.name()) {
            return Character::CrazyHand;
        }
        if str_eq(name, Character::Sandbag.name()) {
            return Character::Sandbag;
        }
        if str_eq(name, Character::Popo.name()) {
            return Character::Popo;
        }
        Character::Unknown
    }
}

impl Default for GameMode {
    /// The mode the game's state reads as before anything is loaded.
    fn default() -> (m: GameMode)
        ensures
            m == GameMode::Title,
    {
        GameMode::Title
    }
}

/// Every kind's wire name reads back as that kind, so no two kinds share a name.
pub proof fn player_kind_names_round_trip(k: PlayerKind)
    ensures
        PlayerKind::spec_from_name(k.spec_name()) == k,
{
}

/// Every mode's wire name reads back as that mode, so no two modes share a name.
#[verifier::spinoff_prover]
#[verifier::rlimit(100)]
pub proof fn game_mode_names_round_trip(m: GameMode)
    ensures
        GameMode::spec_from_name(m.spec_name()) == m,
{
    // Each arm gives the name's length and, for every name tried before it
    // that has the same length, a position where the two differ.
    match m {
        GameMode::Title => {
            assert(GameMode::Title.spec_name().len() == 5);
        },
        GameMode::Menu => {
            assert(GameMode::Menu.spec_name().len() == 4);
        },
        GameMode::Vs => {
            assert(GameMode::Vs.spec_name().len() == 2);
        },
        GameMode::Classic => {
            assert(GameMode::Classic.spec_name().len() == 7);
        },
        GameMode::Adventure => {
            assert(GameMode::Adventure.spec_name().len() == 9);
        },
        GameMode::AllStar => {
            assert(GameMode::AllStar.spec_name().len() == 7);
            assert(GameMode::Classic.spec_name()[0] == 'c' && GameMode::AllStar.spec_name()[0] == 'a');
        },
        GameMode::Debug => {
            assert(GameMode::Debug.spec_name().len() == 5);
            assert(GameMode::Title.spec_name()[0] == 't' && GameMode::Debug.spec_name()[0] == 'd');
        },
        GameMode::DebugSoundTest => {
            assert(GameMode::DebugSoundTest.spec_name().len() == 16);
        },
        GameMode::HanyuCss => {
            assert(GameMode::HanyuCss.spec_name().len() == 9);
            assert(GameMode::Adventure.spec_name()[0] == 'a' && GameMode::HanyuCss.spec_name()[0] == 'h');
        },
        GameMode::HanyuSss => {
            assert(GameMode::HanyuSss.spec_name().len() == 9);
            assert(GameMode::Adventure.spec_name()[0] == 'a' && GameMode::HanyuSss.spec_name()[0] == 'h');
            assert(GameMode::HanyuCss.spec_name()[6] == 'c' && GameMode::HanyuSss.spec_name()[6] == 's');
        },
        GameMode::CameraMode => {
            assert(GameMode::CameraMode.spec_name().len() == 11);
        },
        GameMode::ToyGallery => {
            assert(GameMode::ToyGallery.spec_name().len() == 11);
            assert(GameMode::CameraMode.spec_name()[0] == 'c' && GameMode::ToyGallery.spec_name()[0] == 't');
        },
        GameMode::ToyLottery => {
            assert(GameMode::ToyLottery.spec_name().len() == 11);
            assert(GameMode::CameraMode.spec_name()[0] == 'c' && GameMode::ToyLottery.spec_name()[0] == 't');
            assert(GameMode::ToyGallery.spec_name()[4] == 'g' && GameMode::ToyLottery.spec_name()[4] == 'l');
        },
        GameMode::ToyCollection => {
            assert(GameMode::ToyCollection.spec_name().len() == 14);
        },
        GameMode::DebugVs => {
            assert(GameMode::DebugVs.spec_name().len() == 8);
        },
        GameMode::TargetTest => {
            assert(GameMode::TargetTest.spec_name().len() == 11);
            assert(GameMode::CameraMode.spec_name()[0] == 'c' && GameMode::TargetTest.spec_name()[0] == 't');
            assert(GameMode::ToyGallery.spec_name()[1] == 'o' && GameMode::TargetTest.spec_name()[1] == 'a');
            assert(GameMode::ToyLottery.spec_name()[1] == 'o' && GameMode::TargetTest.spec_name()[1] == 'a');
        },
        GameMode::SuperSuddenDeathVs => {
            assert(GameMode::SuperSuddenDeathVs.spec_name().len() == 21);
        },
        GameMode::InvisibleVs => {
            assert(GameMode::InvisibleVs.spec_name().len() == 12);
        },
        GameMode::SlomoVs => {
            assert(GameMode::SlomoVs.spec_name().len() == 8);
            assert(GameMode::DebugVs.spec_name()[0] == 'd' && GameMode::SlomoVs.spec_name()[0] == 's');
        },
        GameMode::LightningVs => {
            assert(GameMode::LightningVs.spec_name().len() == 12);
            assert(GameMode::InvisibleVs.spec_name()[0] == 'i' && GameMode::LightningVs.spec_name()[0] == 'l');
        },
        GameMode::ChallengerApproach => {
            assert(GameMode::ChallengerApproach.spec_name().len() == 19);
        },
        GameMode::ClassicGover => {
            assert(GameMode::ClassicGover.spec_name().len() == 13);
        },
        GameMode::AdventureGover => {
            assert(GameMode::AdventureGover.spec_name().len() == 15);
        },
        GameMode::AllStarGover => {
            assert(GameMode::AllStarGover.spec_name().len() == 13);
            assert(GameMode::ClassicGover.spec_name()[0] == 'c' && GameMode::AllStarGover.spec_name()[0] == 'a');
        },
        GameMode::OpeningMv => {
            assert(GameMode::OpeningMv.spec_name().len() == 10);
        },
        GameMode::DebugCutscene => {
            assert(GameMode::DebugCutscene.spec_name().len() == 14);
            assert(GameMode::ToyCollection.spec_name()[0] == 't' && GameMode::DebugCutscene.spec_name()[0] == 'd');
        },
        GameMode::DebugGover => {
            assert(GameMode::DebugGover.spec_name().len() == 11);
            assert(GameMode::CameraMode.spec_name()[0] == 'c' && GameMode::DebugGover.spec_name()[0] == 'd');
            assert(GameMode::ToyGallery.spec_name()[0] == 't' && GameMode::DebugGover.spec_name()[0] == 'd');
            assert(GameMode::ToyLottery.spec_name()[0] == 't' && GameMode::DebugGover.spec_name()[0] == 'd');
            assert(GameMode::TargetTest.spec_name()[0] == 't' && GameMode::DebugGover.spec_name()[0] == 'd');
        },
        GameMode::Tournament => {
            assert(GameMode::Tournament.spec_name().len() == 10);
            assert(GameMode::OpeningMv.spec_name()[0] == 'o' && GameMode::Tournament.spec_name()[0] == 't');
        },
        GameMode::Training => {
            assert(GameMode::Training.spec_name().len() == 8);
            assert(GameMode::DebugVs.spec_name()[0] == 'd' && GameMode::Training.spec_name()[0] == 't');
            assert(GameMode::SlomoVs.spec_name()[0] == 's' && GameMode::Training.spec_name()[0] == 't');
        },
        GameMode::TinyVs => {
            assert(GameMode::TinyVs.spec_name().len() == 7);
            assert(GameMode::Classic.spec_name()[0] == 'c' && GameMode::TinyVs.spec_name()[0] == 't');
            assert(GameMode::AllStar.spec_name()[0] == 'a' && GameMode::TinyVs.spec_name()[0] == 't');
        },
        GameMode::GiantVs => {
            assert(GameMode::GiantVs.spec_name().len() == 8);
            assert(GameMode::DebugVs.spec_name()[0] == 'd' && GameMode::GiantVs.spec_name()[0] == 'g');
            assert(GameMode::SlomoVs.spec_name()[0] == 's' && GameMode::GiantVs.spec_name()[0] == 'g');
            assert(GameMode::Training.spec_name()[0] == 't' && GameMode::GiantVs.spec_name()[0] == 'g');
        },
        GameMode::StaminaVs => {
            assert(GameMode::StaminaVs.spec_name().len() == 10);
            assert(GameMode::OpeningMv.spec_name()[0] == 'o' && GameMode::StaminaVs.spec_name()[0] == 's');
            assert(GameMode::Tournament.spec_name()[0] == 't' && GameMode::StaminaVs.spec_name()[0] == 's');
        },
        GameMode::HomeRunContest => {
            assert(GameMode::HomeRunContest.spec_name().len() == 16);
            assert(GameMode::DebugSoundTest.spec_name()[0] == 'd' && GameMode::HomeRunContest.spec_name()[0] == 'h');
        },
        GameMode::TenManVs => {
            assert(GameMode::TenManVs.spec_name().len() == 8);
            assert(GameMode::DebugVs.spec_name()[0] == 'd' && GameMode::TenManVs.spec_name()[0] == '1');
            assert(GameMode::SlomoVs.spec_name()[0] == 's' && GameMode::TenManVs.spec_name()[0] == '1');
            assert(GameMode::Training.spec_name()[0] == 't' && GameMode::TenManVs.spec_name()[0] == '1');
            assert(GameMode::GiantVs.spec_name()[0] == 'g' && GameMode::TenManVs.spec_name()[0] == '1');
        },
        GameMode::HundredManVs => {
            assert(GameMode::HundredManVs.spec_name().len() == 9);
            assert(GameMode::Adventure.spec_name()[0] == 'a' && GameMode::HundredManVs.spec_name()[0] == '1');
            assert(GameMode::HanyuCss.spec_name()[0] == 'h' && GameMode::HundredManVs.spec_name()[0] == '1');
            assert(GameMode::HanyuSss.spec_name()[0] == 'h' && GameMode::HundredManVs.spec_name()[0] == '1');
        },
        GameMode::ThreeMinVs => {
            assert(GameMode::ThreeMinVs.spec_name().len() == 7);
            assert(GameMode::Classic.spec_name()[0] == 'c' && GameMode::ThreeMinVs.spec_name()[0] == '3');
            assert(GameMode::AllStar.spec_name()[0] == 'a' && GameMode::ThreeMinVs.spec_name()[0] == '3');
            assert(GameMode::TinyVs.spec_name()[0] == 't' && GameMode::ThreeMinVs.spec_name()[0] == '3');
        },
        GameMode::FifteenMinVs => {
            assert(GameMode::FifteenMinVs.spec_name().len() == 8);
            assert(GameMode::DebugVs.spec_name()[0] == 'd' && GameMode::FifteenMinVs.spec_name()[0] == '1');
            assert(GameMode::SlomoVs.spec_name()[0] == 's' && GameMode::FifteenMinVs.spec_name()[0] == '1');
            assert(GameMode::Training.spec_name()[0] == 't' && GameMode::FifteenMinVs.spec_name()[0] == '1');
            assert(GameMode::GiantVs.spec_name()[0] == 'g' && GameMode::FifteenMinVs.spec_name()[0] == '1');
            assert(GameMode::TenManVs.spec_name()[1] == '0' && GameMode::FifteenMinVs.spec_name()[1] == '5');
        },
        GameMode::EndlessVs => {
            assert(GameMode::EndlessVs.spec_name().len() == 10);
            assert(GameMode::OpeningMv.spec_name()[0] == 'o' && GameMode::EndlessVs.spec_name()[0] == 'e');
            assert(GameMode::Tournament.spec_name()[0] == 't' && GameMode::EndlessVs.spec_name()[0] == 'e');
            assert(GameMode::StaminaVs.spec_name()[0] == 's' && GameMode::EndlessVs.spec_name()[0] == 'e');
        },
        GameMode::CruelVs => {
            assert(GameMode::CruelVs.spec_name().len() == 8);
            assert(GameMode::DebugVs.spec_name()[0] == 'd' && GameMode::CruelVs.spec_name()[0] == 'c');
            assert(GameMode::SlomoVs.spec_name()[0] == 's' && GameMode::CruelVs.spec_name()[0] == 'c');
            assert(GameMode::Training.spec_name()[0] == 't' && GameMode::CruelVs.spec_name()[0] == 'c');
            assert(GameMode::GiantVs.spec_name()[0] == 'g' && GameMode::CruelVs.spec_name()[0] == 'c');
            assert(GameMode::TenManVs.spec_name()[0] == '1' && GameMode::CruelVs.spec_name()[0] == 'c');
            assert(GameMode::FifteenMinVs.spec_name()[0] == '1' && GameMode::CruelVs.spec_name()[0] == 'c');
        },
        GameMode::ProgressiveScan => {
            assert(GameMode::ProgressiveScan.spec_name().len() == 16);
            assert(GameMode::DebugSoundTest.spec_name()[0] == 'd' && GameMode::ProgressiveScan.spec_name()[0] == 'p');
            assert(GameMode::HomeRunContest.spec_name()[0] == 'h' && GameMode::ProgressiveScan.spec_name()[0] == 'p');
        },
        GameMode::Boot => {
            assert(GameMode::Boot.spec_name().len() == 4);
            assert(GameMode::Menu.spec_name()[0] == 'm' && GameMode::Boot.spec_name()[0] == 'b');
        },
        GameMode::Memcard => {
            assert(GameMode::Memcard.spec_name().len() == 7);
            assert(GameMode::Classic.spec_name()[0] == 'c' && GameMode::Memcard.spec_name()[0] == 'm');
            assert(GameMode::AllStar.spec_name()[0] == 'a' && GameMode::Memcard.spec_name()[0] == 'm');
            assert(GameMode::TinyVs.spec_name()[0] == 't' && GameMode::Memcard.spec_name()[0] == 'm');
            assert(GameMode::ThreeMinVs.spec_name()[0] == '3' && GameMode::Memcard.spec_name()[0] == 'm');
        },
        GameMode::CameraVs => {
            assert(GameMode::CameraVs.spec_name().len() == 9);
            assert(GameMode::Adventure.spec_name()[0] == 'a' && GameMode::CameraVs.spec_name()[0] == 'c');
            assert(GameMode::HanyuCss.spec_name()[0] == 'h' && GameMode::CameraVs.spec_name()[0] == 'c');
            assert(GameMode::HanyuSss.spec_name()[0] == 'h' && GameMode::CameraVs.spec_name()[0] == 'c');
            assert(GameMode::HundredManVs.spec_name()[0] == '1' && GameMode::CameraVs.spec_name()[0] == 'c');
        },
        GameMode::Event => {
            assert(GameMode::Event.spec_name().len() == 5);
            assert(GameMode::Title.spec_name()[0] == 't' && GameMode::Event.spec_name()[0] == 'e');
            assert(GameMode::Debug.spec_name()[0] == 'd' && GameMode::Event.spec_name()[0] == 'e');
        },
        GameMode::SingleButtonVs => {
            assert(GameMode::SingleButtonVs.spec_name().len() == 16);
            assert(GameMode::DebugSoundTest.spec_name()[0] == 'd' && GameMode::SingleButtonVs.spec_name()[0] == 's');
            assert(GameMode::HomeRunContest.spec_name()[0] == 'h' && GameMode::SingleButtonVs.spec_name()[0] == 's');
            assert(GameMode::ProgressiveScan.spec_name()[0] == 'p' && GameMode::SingleButtonVs.spec_name()[0] == 's');
        },
        GameMode::Online => {
            assert(GameMode::Online.spec_name().len() == 6);
        },
        GameMode::Unknown => {
            assert(GameMode::Unknown.spec_name().len() == 7);
            assert(GameMode::Classic.spec_name()[0] == 'c' && GameMode::Unknown.spec_name()[0] == 'u');
            assert(GameMode::AllStar.spec_name()[0] == 'a' && GameMode::Unknown.spec_name()[0] == 'u');
            assert(GameMode::TinyVs.spec_name()[0] == 't' && GameMode::Unknown.spec_name()[0] == 'u');
            assert(GameMode::ThreeMinVs.spec_name()[0] == '3' && GameMode::Unknown.spec_name()[0] == 'u');
            assert(GameMode::Memcard.spec_name()[0] == 'm' && GameMode::Unknown.spec_name()[0] == 'u');
        },
    }
}

/// Every character's wire name reads back as that character, so no two
/// characters share a name.
#[verifier::rlimit(50)]
pub proof fn character_names_round_trip(c: Character)
    ensures
        Character::spec_from_name(c.spec_name()) == c,
{
}

/// The defined ids run from zero without a gap: id `i` is the `i`-th defined
/// variant, and every id past them is `Unknown`.
pub proof fn known_ids_are_contiguous(raw: i32)
    ensures
        0 <= raw < 46 ==> GameMode::spec_from_raw(raw) == GameMode::KNOWN@[raw as int],
        (raw < 0 || raw >= 46) ==> GameMode::spec_from_raw(raw) == GameMode::Unknown,
        0 <= raw < 33 ==> Character::spec_from_raw(raw) == Character::KNOWN@[raw as int],
        (raw < 0 || raw >= 33) ==> Character::spec_from_raw(raw) == Character::Unknown,
{
}

/// The game's table of mode names, in the order of the mode ids.
pub open spec fn game_mode_table() -> Seq<Seq<char>> {
    seq![
        "title"@,
        "menu"@,
        "vs"@,
        "classic"@,
        "adventure"@,
        "allstar"@,
        "debug"@,
        "debug_sound_test"@,
        "hanyu_css"@,
        "hanyu_sss"@,
        "camera_mode"@,
        "toy_gallery"@,
        "toy_lottery"@,
        "toy_collection"@,
        "debug_vs"@,
        "target_test"@,
        "super_sudden_death_vs"@,
        "invisible_vs"@,
        "slomo_vs"@,
        "lightning_vs"@,
        "challenger_approach"@,
        "classic_gover"@,
        "adventure_gover"@,
        "allstar_gover"@,
        "opening_mv"@,
        "debug_cutscene"@,
        "debug_gover"@,
        "tournament"@,
        "training"@,
        "tiny_vs"@,
        "giant_vs"@,
        "stamina_vs"@,
        "home_run_contest"@,
        "10man_vs"@,
        "100man_vs"@,
        "3min_vs"@,
        "15min_vs"@,
        "endless_vs"@,
        "cruel_vs"@,
        "progressive_scan"@,
        "boot"@,
        "memcard"@,
        "camera_vs"@,
        "event"@,
        "single_button_vs"@,
        "online"@,
    ]
}

/// A mode id reads as the mode the game's table names at that id, and any id
/// the table lacks as `unknown`.
#[verifier::rlimit(50)]
pub proof fn mode_ids_name_the_game_table(raw: i32)
    ensures
        0 <= raw < 46 ==> GameMode::spec_from_raw(raw).spec_name() == game_mode_table()[raw as int],
        (raw < 0 || raw >= 46) ==> GameMode::spec_from_raw(raw).spec_name() == "unknown"@,
{
    reveal_strlit("unknown");
    reveal_strlit("title");
    reveal_strlit("menu");
    reveal_strlit("vs");
    reveal_strlit("classic");
    reveal_strlit("adventure");
    reveal_strlit("allstar");
    reveal_strlit("debug");
    reveal_strlit("debug_sound_test");
    reveal_strlit("hanyu_css");
    reveal_strlit("hanyu_sss");
    reveal_strlit("camera_mode");
    reveal_strlit("toy_gallery");
    reveal_strlit("toy_lottery");
    reveal_strlit("toy_collection");
    reveal_strlit("debug_vs");
    reveal_strlit("target_test");
    reveal_strlit("super_sudden_death_vs");
    reveal_strlit("invisible_vs");
    reveal_strlit("slomo_vs");
    reveal_strlit("lightning_vs");
    reveal_strlit("challenger_approach");
    reveal_strlit("classic_gover");
    reveal_strlit("adventure_gover");
    reveal_strlit("allstar_gover");
    reveal_strlit("opening_mv");
    reveal_strlit("debug_cutscene");
    reveal_strlit("debug_gover");
    reveal_strlit("tournament");
    reveal_strlit("training");
    reveal_strlit("tiny_vs");
    reveal_strlit("giant_vs");
    reveal_strlit("stamina_vs");
    reveal_strlit("home_run_contest");
    reveal_strlit("10man_vs");
    reveal_strlit("100man_vs");
    reveal_strlit("3min_vs");
    reveal_strlit("15min_vs");
    reveal_strlit("endless_vs");
    reveal_strlit("cruel_vs");
    reveal_strlit("progressive_scan");
    reveal_strlit("boot");
    reveal_strlit("memcard");
    reveal_strlit("camera_vs");
    reveal_strlit("event");
    reveal_strlit("single_button_vs");
    reveal_strlit("online");
    assert(game_mode_table().len() == 46);
    if raw == 0 {
        assert(GameMode::spec_from_raw(raw).spec_name() =~= game_mode_table()[0]);
    } else if raw == 1 {
        assert(GameMode::spec_from_raw(raw).spec_name() =~= game_mode_table()[1]);
    } else if raw == 2 {
        assert(GameMode::spec_from_raw(raw).spec_name() =~= game_mode_table()[2]);
    } else if raw == 3 {
        assert(GameMode::spec_from_raw(raw).spec_name() =~= game_mode_table()[3]);
    } else if raw == 4 {
        assert(GameMode::spec_from_raw(raw).spec_name() =~= game_mode_table()[4]);
    } else if raw == 5 {
        assert(GameMode::spec_from_raw(raw).spec_name() =~= game_mode_table()[5]);
    } else if raw == 6 {
        assert(GameMode::spec_from_raw(raw).spec_name() =~= game_mode_table()[6]);
    } else if raw == 7 {
        assert(GameMode::spec_from_raw(raw).spec_name() =~= game_mode_table()[7]);
    } else if raw == 8 {
        assert(GameMode::spec_from_raw(raw).spec_name() =~= game_mode_table()[8]);
    } else if raw == 9 {
        assert(GameMode::spec_from_raw(raw).spec_name() =~= game_mode_table()[9]);
    } else if raw == 10 {
        assert(GameMode::spec_from_raw(raw).spec_name() =~= game_mode_table()[10]);
    } else if raw == 11 {
        assert(GameMode::spec_from_raw(raw).spec_name() =~= game_mode_table()[11]);
    } else if raw == 12 {
        assert(GameMode::spec_from_raw(raw).spec_name() =~= game_mode_table()[12]);
    } else if raw == 13 {
        assert(GameMode::spec_from_raw(raw).spec_name() =~= game_mode_table()[13]);
    } else if raw == 14 {
        assert(GameMode::spec_from_raw(raw).spec_name() =~= game_mode_table()[14]);
    } else if raw == 15 {
        assert(GameMode::spec_from_raw(raw).spec_name() =~= game_mode_table()[15]);
    } else if raw == 16 {
        assert(GameMode::spec_from_raw(raw).spec_name() =~= game_mode_table()[16]);
    } else if raw == 17 {
        assert(GameMode::spec_from_raw(raw).spec_name() =~= game_mode_table()[17]);
    } else if raw == 18 {
        assert(GameMode::spec_from_raw(raw).spec_name() =~= game_mode_table()[18]);
    } else if raw == 19 {
        assert(GameMode::spec_from_raw(raw).spec_name() =~= game_mode_table()[19]);
    } else if raw == 20 {
        assert(GameMode::spec_from_raw(raw).spec_name() =~= game_mode_table()[20]);
    } else if raw == 21 {
        assert(GameMode::spec_from_raw(raw).spec_name() =~= game_mode_table()[21]);
    } else if raw == 22 {
        assert(GameMode::spec_from_raw(raw).spec_name() =~= game_mode_table()[22]);
    } else if raw == 23 {
        assert(GameMode::spec_from_raw(raw).spec_name() =~= game_mode_table()[23]);
    } else if raw == 24 {
        assert(GameMode::spec_from_raw(raw).spec_name() =~= game_mode_table()[24]);
    } else if raw == 25 {
        assert(GameMode::spec_from_raw(raw).spec_name() =~= game_mode_table()[25]);
    } else if raw == 26 {
        assert(GameMode::spec_from_raw(raw).spec_name() =~= game_mode_table()[26]);
    } else if raw == 27 {
        assert(GameMode::spec_from_raw(raw).spec_name() =~= game_mode_table()[27]);
    } else if raw == 28 {
        assert(GameMode::spec_from_raw(raw).spec_name() =~= game_mode_table()[28]);
    } else if raw == 29 {
        assert(GameMode::spec_from_raw(raw).spec_name() =~= game_mode_table()[29]);
    } else if raw == 30 {
        assert(GameMode::spec_from_raw(raw).spec_name() =~= game_mode_table()[30]);
    } else if raw == 31 {
        assert(GameMode::spec_from_raw(raw).spec_name() =~= game_mode_table()[31]);
    } else if raw == 32 {
        assert(GameMode::spec_from_raw(raw).spec_name() =~= game_mode_table()[32]);
    } else if raw == 33 {
        assert(GameMode::spec_from_raw(raw).spec_name() =~= game_mode_table()[33]);
    } else if raw == 34 {
        assert(GameMode::spec_from_raw(raw).spec_name() =~= game_mode_table()[34]);
    } else if raw == 35 {
        assert(GameMode::spec_from_raw(raw).spec_name() =~= game_mode_table()[35]);
    } else if raw == 36 {
        assert(GameMode::spec_from_raw(raw).spec_name() =~= game_mode_table()[36]);
    } else if raw == 37 {
        assert(GameMode::spec_from_raw(raw).spec_name() =~= game_mode_table()[37]);
    } else if raw == 38 {
        assert(GameMode::spec_from_raw(raw).spec_name() =~= game_mode_table()[38]);
    } else if raw == 39 {
        assert(GameMode::spec_from_raw(raw).spec_name() =~= game_mode_table()[39]);
    } else if raw == 40 {
        assert(GameMode::spec_from_raw(raw).spec_name() =~= game_mode_table()[40]);
    } else if raw == 41 {
        assert(GameMode::spec_from_raw(raw).spec_name() =~= game_mode_table()[41]);
    } else if raw == 42 {
        assert(GameMode::spec_from_raw(raw).spec_name() =~= game_mode_table()[42]);
    } else if raw == 43 {
        assert(GameMode::spec_from_raw(raw).spec_name() =~= game_mode_table()[43]);
    } else if raw == 44 {
        assert(GameMode::spec_from_raw(raw).spec_name() =~= game_mode_table()[44]);
    } else if raw == 45 {
        assert(GameMode::spec_from_raw(raw).spec_name() =~= game_mode_table()[45]);
    } else {
        assert(GameMode::spec_from_raw(raw).spec_name() =~= "unknown"@);
    }
}

/// The game's table of character names, in the order of the character ids.
pub open spec fn character_table() -> Seq<Seq<char>> {
    seq![
        "Captain Falcon"@,
        "Donkey Kong"@,
        "Fox"@,
        "Mr. Game & Watch"@,
        "Kirby"@,
        "Bowser"@,
        "Link"@,
        "Luigi"@,
        "Mario"@,
        "Marth"@,
        "Mewtwo"@,
        "Ness"@,
        "Peach"@,
        "Pikachu"@,
        "Ice Climbers"@,
        "Jigglypuff"@,
        "Samus"@,
        "Yoshi"@,
        "Zelda"@,
        "Sheik"@,
        "Falco"@,
        "Young Link"@,
        "Dr. Mario"@,
        "Roy"@,
        "Pichu"@,
        "Ganondorf"@,
        "Master Hand"@,
        "Male Wireframe"@,
        "Female Wireframe"@,
        "Giga Bowser"@,
        "Crazy Hand"@,
        "Sandbag"@,
        "Popo"@,
    ]
}

/// A character id reads as the character the game's table names at that id
/// (id 8 as `Mario`, id 7 as `Luigi`), and any id the table lacks as `Unknown`.
#[verifier::rlimit(50)]
pub proof fn character_ids_name_the_game_table(raw: i32)
    ensures
        0 <= raw < 33 ==> Character::spec_from_raw(raw).spec_name() == character_table()[raw as int],
        (raw < 0 || raw >= 33) ==> Character::spec_from_raw(raw).spec_name() == "Unknown"@,
{
    reveal_strlit("Unknown");
    reveal_strlit("Captain Falcon");
    reveal_strlit("Donkey Kong");
    reveal_strlit("Fox");
    reveal_strlit("Mr. Game & Watch");
    reveal_strlit("Kirby");
    reveal_strlit("Bowser");
    reveal_strlit("Link");
    reveal_strlit("Luigi");
    reveal_strlit("Mario");
    reveal_strlit("Marth");
    reveal_strlit("Mewtwo");
    reveal_strlit("Ness");
    reveal_strlit("Peach");
    reveal_strlit("Pikachu");
    reveal_strlit("Ice Climbers");
    reveal_strlit("Jigglypuff");
    reveal_strlit("Samus");
    reveal_strlit("Yoshi");
    reveal_strlit("Zelda");
    reveal_strlit("Sheik");
    reveal_strlit("Falco");
    reveal_strlit("Young Link");
    reveal_strlit("Dr. Mario");
    reveal_strlit("Roy");
    reveal_strlit("Pichu");
    reveal_strlit("Ganondorf");
    reveal_strlit("Master Hand");
    reveal_strlit("Male Wireframe");
    reveal_strlit("Female Wireframe");
    reveal_strlit("Giga Bowser");
    reveal_strlit("Crazy Hand");
    reveal_strlit("Sandbag");
    reveal_strlit("Popo");
    assert(character_table().len() == 33);
    if raw == 0 {
        assert(Character::spec_from_raw(raw).spec_name() =~= character_table()[0]);
    } else if raw == 1 {
        assert(Character::spec_from_raw(raw).spec_name() =~= character_table()[1]);
    } else if raw == 2 {
        assert(Character::spec_from_raw(raw).spec_name() =~= character_table()[2]);
    } else if raw == 3 {
        assert(Character::spec_from_raw(raw).spec_name() =~= character_table()[3]);
    } else if raw == 4 {
        assert(Character::spec_from_raw(raw).spec_name() =~= character_table()[4]);
    } else if raw == 5 {
        assert(Character::spec_from_raw(raw).spec_name() =~= character_table()[5]);
    } else if raw == 6 {
        assert(Character::spec_from_raw(raw).spec_name() =~= character_table()[6]);
    } else if raw == 7 {
        assert(Character::spec_from_raw(raw).spec_name() =~= character_table()[7]);
    } else if raw == 8 {
        assert(Character::spec_from_raw(raw).spec_name() =~= character_table()[8]);
    } else if raw == 9 {
        assert(Character::spec_from_raw(raw).spec_name() =~= character_table()[9]);
    } else if raw == 10 {
        assert(Character::spec_from_raw(raw).spec_name() =~= character_table()[10]);
    } else if raw == 11 {
        assert(Character::spec_from_raw(raw).spec_name() =~= character_table()[11]);
    } else if raw == 12 {
        assert(Character::spec_from_raw(raw).spec_name() =~= character_table()[12]);
    } else if raw == 13 {
        assert(Character::spec_from_raw(raw).spec_name() =~= character_table()[13]);
    } else if raw == 14 {
        assert(Character::spec_from_raw(raw).spec_name() =~= character_table()[14]);
    } else if raw == 15 {
        assert(Character::spec_from_raw(raw).spec_name() =~= character_table()[15]);
    } else if raw == 16 {
        assert(Character::spec_from_raw(raw).spec_name() =~= character_table()[16]);
    } else if raw == 17 {
        assert(Character::spec_from_raw(raw).spec_name() =~= character_table()[17]);
    } else if raw == 18 {
        assert(Character::spec_from_raw(raw).spec_name() =~= character_table()[18]);
    } else if raw == 19 {
        assert(Character::spec_from_raw(raw).spec_name() =~= character_table()[19]);
    } else if raw == 20 {
        assert(Character::spec_from_raw(raw).spec_name() =~= character_table()[20]);
    } else if raw == 21 {
        assert(Character::spec_from_raw(raw).spec_name() =~= character_table()[21]);
    } else if raw == 22 {
        assert(Character::spec_from_raw(raw).spec_name() =~= character_table()[22]);
    } else if raw == 23 {
        assert(Character::spec_from_raw(raw).spec_name() =~= character_table()[23]);
    } else if raw == 24 {
        assert(Character::spec_from_raw(raw).spec_name() =~= character_table()[24]);
    } else if raw == 25 {
        assert(Character::spec_from_raw(raw).spec_name() =~= character_table()[25]);
    } else if raw == 26 {
        assert(Character::spec_from_raw(raw).spec_name() =~= character_table()[26]);
    } else if raw == 27 {
        assert(Character::spec_from_raw(raw).spec_name() =~= character_table()[27]);
    } else if raw == 28 {
        assert(Character::spec_from_raw(raw).spec_name() =~= character_table()[28]);
    } else if raw == 29 {
        assert(Character::spec_from_raw(raw).spec_name() =~= character_table()[29]);
    } else if raw == 30 {
        assert(Character::spec_from_raw(raw).spec_name() =~= character_table()[30]);
    } else if raw == 31 {
        assert(Character::spec_from_raw(raw).spec_name() =~= character_table()[31]);
    } else if raw == 32 {
        assert(Character::spec_from_raw(raw).spec_name() =~= character_table()[32]);
    } else {
        assert(Character::spec_from_raw(raw).spec_name() =~= "Unknown"@);
    }
}

/// A player-kind id reads as the kind the game names at that id: 0 `HMN`,
/// 1 `CPU`, 2 `DEMO`, 4 `BOSS`, and any other id `?`.
pub proof fn player_kind_ids_name_the_game_table(raw: i32)
    ensures
        PlayerKind::spec_from_raw(raw).spec_name() == (if raw == 0 {
            "HMN"@
        } else if raw == 1 {
            "CPU"@
        } else if raw == 2 {
            "DEMO"@
        } else if raw == 4 {
            "BOSS"@
        } else {
            "?"@
        }),
{
    reveal_strlit("HMN");
    reveal_strlit("CPU");
    reveal_strlit("DEMO");
    reveal_strlit("BOSS");
    reveal_strlit("?");
    assert(PlayerKind::spec_from_raw(raw).spec_name() =~= (if raw == 0 {
        "HMN"@
    } else if raw == 1 {
        "CPU"@
    } else if raw == 2 {
        "DEMO"@
    } else if raw == 4 {
        "BOSS"@
    } else {
        "?"@
    }));
}

} // verus!
