//! The enumerated types of the packets.

use vstd::prelude::*;
use crate::endian::Endianness;
use crate::record::EnumSpec;
use crate::scalar::FieldEncoding;
use crate::scalar::IntType;
use crate::scalar::fixed_width;
use crate::scalar::varint;

verus! {

/// The algorithm that compresses packets.
/// On the wire it is a `u16` in two bytes, little-endian.
#[allow(non_camel_case_types)]
#[derive(Clone, Copy, Debug, PartialEq, Eq, Structural)]
pub enum CompressionAlgorithm {
    Zlib,
    Snappy,
    NoCompression,
}

impl EnumSpec for CompressionAlgorithm {
    open spec fn repr() -> IntType {
        IntType::U16
    }

    open spec fn encoding() -> FieldEncoding {
        fixed_width(Endianness::Little)
    }

    open spec fn discriminant(self) -> int {
        match self {
            CompressionAlgorithm::Zlib => 0,
            CompressionAlgorithm::Snappy => 1,
            CompressionAlgorithm::NoCompression => 255,
        }
    }

    open spec fn variant(d: int) -> Option<Self> {
        if d == 0 {
            Some(CompressionAlgorithm::Zlib)
        } else if d == 1 {
            Some(CompressionAlgorithm::Snappy)
        } else if d == 255 {
            Some(CompressionAlgorithm::NoCompression)
        } else {
            None
        }
    }

    proof fn lemma_discriminant(self) {
    }

    proof fn lemma_variant(d: int) {
    }

    fn int_type() -> (ty: IntType) {
        IntType::U16
    }

    fn field_encoding() -> (enc: FieldEncoding) {
        FieldEncoding::fixed(Endianness::Little)
    }

    fn to_discriminant(&self) -> (d: i128) {
        match self {
            CompressionAlgorithm::Zlib => 0,
            CompressionAlgorithm::Snappy => 1,
            CompressionAlgorithm::NoCompression => 255,
        }
    }

    fn from_discriminant(d: i128) -> (v: Option<Self>) {
        if d == 0 {
            Some(CompressionAlgorithm::Zlib)
        } else if d == 1 {
            Some(CompressionAlgorithm::Snappy)
        } else if d == 255 {
            Some(CompressionAlgorithm::NoCompression)
        } else {
            None
        }
    }
}

impl Default for CompressionAlgorithm {
    fn default() -> (v: Self)
        ensures
            v == CompressionAlgorithm::NoCompression,
    {
        CompressionAlgorithm::NoCompression
    }
}

/// What the server tells a player of its login.
/// On the wire it is an `i32` in four bytes, big-endian.
#[allow(non_camel_case_types)]
#[derive(Clone, Copy, Debug, PartialEq, Eq, Structural)]
pub enum PlayStatus {
    LoginSuccess,
    LoginFailedClient,
    LoginFailedServer,
    PlayerSpawn,
    LoginFailedInvalidTenant,
    LoginFailedVanillaEdu,
    LoginFailedEduVanilla,
    LoginFailedServerFull,
    LoginFailedEditorVanilla,
    LoginFailedVanillaEditor,
}

impl EnumSpec for PlayStatus {
    open spec fn repr() -> IntType {
        IntType::I32
    }

    open spec fn encoding() -> FieldEncoding {
        fixed_width(Endianness::Big)
    }

    open spec fn discriminant(self) -> int {
        match self {
            PlayStatus::LoginSuccess => 0,
            PlayStatus::LoginFailedClient => 1,
            PlayStatus::LoginFailedServer => 2,
            PlayStatus::PlayerSpawn => 3,
            PlayStatus::LoginFailedInvalidTenant => 4,
            PlayStatus::LoginFailedVanillaEdu => 5,
            PlayStatus::LoginFailedEduVanilla => 6,
            PlayStatus::LoginFailedServerFull => 7,
            PlayStatus::LoginFailedEditorVanilla => 8,
            PlayStatus::LoginFailedVanillaEditor => 9,
        }
    }

    open spec fn variant(d: int) -> Option<Self> {
        if d == 0 {
            Some(PlayStatus::LoginSuccess)
        } else if d == 1 {
            Some(PlayStatus::LoginFailedClient)
        } else if d == 2 {
            Some(PlayStatus::LoginFailedServer)
        } else if d == 3 {
            Some(PlayStatus::PlayerSpawn)
        } else if d == 4 {
            Some(PlayStatus::LoginFailedInvalidTenant)
        } else if d == 5 {
            Some(PlayStatus::LoginFailedVanillaEdu)
        } else if d == 6 {
            Some(PlayStatus::LoginFailedEduVanilla)
        } else if d == 7 {
            Some(PlayStatus::LoginFailedServerFull)
        } else if d == 8 {
            Some(PlayStatus::LoginFailedEditorVanilla)
        } else if d == 9 {
            Some(PlayStatus::LoginFailedVanillaEditor)
        } else {
            None
        }
    }

    proof fn lemma_discriminant(self) {
    }

    proof fn lemma_variant(d: int) {
    }

    fn int_type() -> (ty: IntType) {
        IntType::I32
    }

    fn field_encoding() -> (enc: FieldEncoding) {
        FieldEncoding::fixed(Endianness::Big)
    }

    fn to_discriminant(&self) -> (d: i128) {
        match self {
            PlayStatus::LoginSuccess => 0,
            PlayStatus::LoginFailedClient => 1,
            PlayStatus::LoginFailedServer => 2,
            PlayStatus::PlayerSpawn => 3,
            PlayStatus::LoginFailedInvalidTenant => 4,
            PlayStatus::LoginFailedVanillaEdu => 5,
            PlayStatus::LoginFailedEduVanilla => 6,
            PlayStatus::LoginFailedServerFull => 7,
            PlayStatus::LoginFailedEditorVanilla => 8,
            PlayStatus::LoginFailedVanillaEditor => 9,
        }
    }

    fn from_discriminant(d: i128) -> (v: Option<Self>) {
        if d == 0 {
            Some(PlayStatus::LoginSuccess)
        } else if d == 1 {
            Some(PlayStatus::LoginFailedClient)
        } else if d == 2 {
            Some(PlayStatus::LoginFailedServer)
        } else if d == 3 {
            Some(PlayStatus::PlayerSpawn)
        } else if d == 4 {
            Some(PlayStatus::LoginFailedInvalidTenant)
        } else if d == 5 {
            Some(PlayStatus::LoginFailedVanillaEdu)
        } else if d == 6 {
            Some(PlayStatus::LoginFailedEduVanilla)
        } else if d == 7 {
            Some(PlayStatus::LoginFailedServerFull)
        } else if d == 8 {
            Some(PlayStatus::LoginFailedEditorVanilla)
        } else if d == 9 {
            Some(PlayStatus::LoginFailedVanillaEditor)
        } else {
            None
        }
    }
}

impl Default for PlayStatus {
    fn default() -> (v: Self)
        ensures
            v == PlayStatus::LoginSuccess,
    {
        PlayStatus::LoginSuccess
    }
}

/// An event that has to do with an entity.
/// On the wire it is a variable-length `u64`.
#[allow(non_camel_case_types)]
#[derive(Clone, Copy, Debug, PartialEq, Eq, Structural)]
pub enum ActorEvent {
    JUMP,
    HurtAnimation,
    DeathAnimation,
    ArmSwing,
    StopAttack,
    TameFail,
    TameSuccess,
    ShakeWet,
    UseItem,
    EatGrassAnimation,
    FishHookBubble,
    FishHookPosition,
    FishHookHook,
    FishHookTease,
    SquidInkCloud,
    ZombieVillagerCure,
    PlayAmbientSound,
    RESPAWN,
    IronGolemOfferFlower,
    IronGolemWithdrawFlower,
    LoveParticles,
    VillagerAngry,
    VillagerHappy,
    WitchSpellParticles,
    FireworkParticles,
    InLoveParticles,
    SilverfishSpawnAnimation,
    GuardianAttack,
    WitchDrinkPotion,
    WitchThrowPotion,
    MinecartTntPrimeFuse,
    CreeperPrimeFuse,
    AirSupplyExpired,
    PlayerAddXpLevels,
    ElderGuardianCurse,
    AgentArmSwing,
    EnderDragonDeath,
    DustParticles,
    ArrowShake,
    EatingItem,
    BabyAnimalFeed,
    DeathSmokeCloud,
    CompleteTrade,
    RemoveLeash,
    CaravanUpdated,
    ConsumeTotem,
    PlayerCheckTreasureHunterAchievement,
    EntitySpawn,
    DragonPuke,
    ItemEntityMerge,
    StartSwim,
    BalloonPop,
    TreasureHunt,
    AgentSummon,
    ChargedItem,
    FALL,
    GrowUp,
    VibrationDetected,
    DrinkMilk,
}

impl EnumSpec for ActorEvent {
    open spec fn repr() -> IntType {
        IntType::U64
    }

    open spec fn encoding() -> FieldEncoding {
        varint()
    }

    open spec fn discriminant(self) -> int {
        match self {
            ActorEvent::JUMP => 1,
            ActorEvent::HurtAnimation => 2,
            ActorEvent::DeathAnimation => 3,
            ActorEvent::ArmSwing => 4,
            ActorEvent::StopAttack => 5,
            ActorEvent::TameFail => 6,
            ActorEvent::TameSuccess => 7,
            ActorEvent::ShakeWet => 8,
            ActorEvent::UseItem => 9,
            ActorEvent::EatGrassAnimation => 10,
            ActorEvent::FishHookBubble => 11,
            ActorEvent::FishHookPosition => 12,
            ActorEvent::FishHookHook => 13,
            ActorEvent::FishHookTease => 14,
            ActorEvent::SquidInkCloud => 15,
            ActorEvent::ZombieVillagerCure => 16,
            ActorEvent::PlayAmbientSound => 17,
            ActorEvent::RESPAWN => 18,
            ActorEvent::IronGolemOfferFlower => 19,
            ActorEvent::IronGolemWithdrawFlower => 20,
            ActorEvent::LoveParticles => 21,
            ActorEvent::VillagerAngry => 22,
            ActorEvent::VillagerHappy => 23,
            ActorEvent::WitchSpellParticles => 24,
            ActorEvent::FireworkParticles => 25,
            ActorEvent::InLoveParticles => 26,
            ActorEvent::SilverfishSpawnAnimation => 27,
            ActorEvent::GuardianAttack => 28,
            ActorEvent::WitchDrinkPotion => 29,
            ActorEvent::WitchThrowPotion => 30,
            ActorEvent::MinecartTntPrimeFuse => 31,
            ActorEvent::CreeperPrimeFuse => 32,
            ActorEvent::AirSupplyExpired => 33,
            ActorEvent::PlayerAddXpLevels => 34,
            ActorEvent::ElderGuardianCurse => 35,
            ActorEvent::AgentArmSwing => 36,
            ActorEvent::EnderDragonDeath => 37,
            ActorEvent::DustParticles => 38,
            ActorEvent::ArrowShake => 39,
            ActorEvent::EatingItem => 57,
            ActorEvent::BabyAnimalFeed => 60,
            ActorEvent::DeathSmokeCloud => 61,
            ActorEvent::CompleteTrade => 62,
            ActorEvent::RemoveLeash => 63,
            ActorEvent::CaravanUpdated => 64,
            ActorEvent::ConsumeTotem => 65,
            ActorEvent::PlayerCheckTreasureHunterAchievement => 66,
            ActorEvent::EntitySpawn => 67,
            ActorEvent::DragonPuke => 68,
            ActorEvent::ItemEntityMerge => 69,
            ActorEvent::StartSwim => 70,
            ActorEvent::BalloonPop => 71,
            ActorEvent::TreasureHunt => 72,
            ActorEvent::AgentSummon => 73,
            ActorEvent::ChargedItem => 74,
            ActorEvent::FALL => 75,
            ActorEvent::GrowUp => 76,
            ActorEvent::VibrationDetected => 77,
            ActorEvent::DrinkMilk => 78,
        }
    }

    open spec fn variant(d: int) -> Option<Self> {
        if d == 1 {
            Some(ActorEvent::JUMP)
        } else if d == 2 {
            Some(ActorEvent::HurtAnimation)
        } else if d == 3 {
            Some(ActorEvent::DeathAnimation)
        } else if d == 4 {
            Some(ActorEvent::ArmSwing)
        } else if d == 5 {
            Some(ActorEvent::StopAttack)
        } else if d == 6 {
            Some(ActorEvent::TameFail)
        } else if d == 7 {
            Some(ActorEvent::TameSuccess)
        } else if d == 8 {
            Some(ActorEvent::ShakeWet)
        } else if d == 9 {
            Some(ActorEvent::UseItem)
        } else if d == 10 {
            Some(ActorEvent::EatGrassAnimation)
        } else if d == 11 {
            Some(ActorEvent::FishHookBubble)
        } else if d == 12 {
            Some(ActorEvent::FishHookPosition)
        } else if d == 13 {
            Some(ActorEvent::FishHookHook)
        } else if d == 14 {
            Some(ActorEvent::FishHookTease)
        } else if d == 15 {
            Some(ActorEvent::SquidInkCloud)
        } else if d == 16 {
            Some(ActorEvent::ZombieVillagerCure)
        } else if d == 17 {
            Some(ActorEvent::PlayAmbientSound)
        } else if d == 18 {
            Some(ActorEvent::RESPAWN)
        } else if d == 19 {
            Some(ActorEvent::IronGolemOfferFlower)
        } else if d == 20 {
            Some(ActorEvent::IronGolemWithdrawFlower)
        } else if d == 21 {
            Some(ActorEvent::LoveParticles)
        } else if d == 22 {
            Some(ActorEvent::VillagerAngry)
        } else if d == 23 {
            Some(ActorEvent::VillagerHappy)
        } else if d == 24 {
            Some(ActorEvent::WitchSpellParticles)
        } else if d == 25 {
            Some(ActorEvent::FireworkParticles)
        } else if d == 26 {
            Some(ActorEvent::InLoveParticles)
        } else if d == 27 {
            Some(ActorEvent::SilverfishSpawnAnimation)
        } else if d == 28 {
            Some(ActorEvent::GuardianAttack)
        } else if d == 29 {
            Some(ActorEvent::WitchDrinkPotion)
        } else if d == 30 {
            Some(ActorEvent::WitchThrowPotion)
        } else if d == 31 {
            Some(ActorEvent::MinecartTntPrimeFuse)
        } else if d == 32 {
            Some(ActorEvent::CreeperPrimeFuse)
        } else if d == 33 {
            Some(ActorEvent::AirSupplyExpired)
        } else if d == 34 {
            Some(ActorEvent::PlayerAddXpLevels)
        } else if d == 35 {
            Some(ActorEvent::ElderGuardianCurse)
        } else if d == 36 {
            Some(ActorEvent::AgentArmSwing)
        } else if d == 37 {
            Some(ActorEvent::EnderDragonDeath)
        } else if d == 38 {
            Some(ActorEvent::DustParticles)
        } else if d == 39 {
            Some(ActorEvent::ArrowShake)
        } else if d == 57 {
            Some(ActorEvent::EatingItem)
        } else if d == 60 {
            Some(ActorEvent::BabyAnimalFeed)
        } else if d == 61 {
            Some(ActorEvent::DeathSmokeCloud)
        } else if d == 62 {
            Some(ActorEvent::CompleteTrade)
        } else if d == 63 {
            Some(ActorEvent::RemoveLeash)
        } else if d == 64 {
            Some(ActorEvent::CaravanUpdated)
        } else if d == 65 {
            Some(ActorEvent::ConsumeTotem)
        } else if d == 66 {
            Some(ActorEvent::PlayerCheckTreasureHunterAchievement)
        } else if d == 67 {
            Some(ActorEvent::EntitySpawn)
        } else if d == 68 {
            Some(ActorEvent::DragonPuke)
        } else if d == 69 {
            Some(ActorEvent::ItemEntityMerge)
        } else if d == 70 {
            Some(ActorEvent::StartSwim)
        } else if d == 71 {
            Some(ActorEvent::BalloonPop)
        } else if d == 72 {
            Some(ActorEvent::TreasureHunt)
        } else if d == 73 {
            Some(ActorEvent::AgentSummon)
        } else if d == 74 {
            Some(ActorEvent::ChargedItem)
        } else if d == 75 {
            Some(ActorEvent::FALL)
        } else if d == 76 {
            Some(ActorEvent::GrowUp)
        } else if d == 77 {
            Some(ActorEvent::VibrationDetected)
        } else if d == 78 {
            Some(ActorEvent::DrinkMilk)
        } else {
            None
        }
    }

    proof fn lemma_discriminant(self) {
    }

    proof fn lemma_variant(d: int) {
    }

    fn int_type() -> (ty: IntType) {
        IntType::U64
    }

    fn field_encoding() -> (enc: FieldEncoding) {
        FieldEncoding::variable()
    }

    fn to_discriminant(&self) -> (d: i128) {
        match self {
            ActorEvent::JUMP => 1,
            ActorEvent::HurtAnimation => 2,
            ActorEvent::DeathAnimation => 3,
            ActorEvent::ArmSwing => 4,
            ActorEvent::StopAttack => 5,
            ActorEvent::TameFail => 6,
            ActorEvent::TameSuccess => 7,
            ActorEvent::ShakeWet => 8,
            ActorEvent::UseItem => 9,
            ActorEvent::EatGrassAnimation => 10,
            ActorEvent::FishHookBubble => 11,
            ActorEvent::FishHookPosition => 12,
            ActorEvent::FishHookHook => 13,
            ActorEvent::FishHookTease => 14,
            ActorEvent::SquidInkCloud => 15,
            ActorEvent::ZombieVillagerCure => 16,
            ActorEvent::PlayAmbientSound => 17,
            ActorEvent::RESPAWN => 18,
            ActorEvent::IronGolemOfferFlower => 19,
            ActorEvent::IronGolemWithdrawFlower => 20,
            ActorEvent::LoveParticles => 21,
            ActorEvent::VillagerAngry => 22,
            ActorEvent::VillagerHappy => 23,
            ActorEvent::WitchSpellParticles => 24,
            ActorEvent::FireworkParticles => 25,
            ActorEvent::InLoveParticles => 26,
            ActorEvent::SilverfishSpawnAnimation => 27,
            ActorEvent::GuardianAttack => 28,
            ActorEvent::WitchDrinkPotion => 29,
            ActorEvent::WitchThrowPotion => 30,
            ActorEvent::MinecartTntPrimeFuse => 31,
            ActorEvent::CreeperPrimeFuse => 32,
            ActorEvent::AirSupplyExpired => 33,
            ActorEvent::PlayerAddXpLevels => 34,
            ActorEvent::ElderGuardianCurse => 35,
            ActorEvent::AgentArmSwing => 36,
            ActorEvent::EnderDragonDeath => 37,
            ActorEvent::DustParticles => 38,
            ActorEvent::ArrowShake => 39,
            ActorEvent::EatingItem => 57,
            ActorEvent::BabyAnimalFeed => 60,
            ActorEvent::DeathSmokeCloud => 61,
            ActorEvent::CompleteTrade => 62,
            ActorEvent::RemoveLeash => 63,
            ActorEvent::CaravanUpdated => 64,
            ActorEvent::ConsumeTotem => 65,
            ActorEvent::PlayerCheckTreasureHunterAchievement => 66,
            ActorEvent::EntitySpawn => 67,
            ActorEvent::DragonPuke => 68,
            ActorEvent::ItemEntityMerge => 69,
            ActorEvent::StartSwim => 70,
            ActorEvent::BalloonPop => 71,
            ActorEvent::TreasureHunt => 72,
            ActorEvent::AgentSummon => 73,
            ActorEvent::ChargedItem => 74,
            ActorEvent::FALL => 75,
            ActorEvent::GrowUp => 76,
            ActorEvent::VibrationDetected => 77,
            ActorEvent::DrinkMilk => 78,
        }
    }

    fn from_discriminant(d: i128) -> (v: Option<Self>) {
        if d == 1 {
            Some(ActorEvent::JUMP)
        } else if d == 2 {
            Some(ActorEvent::HurtAnimation)
        } else if d == 3 {
            Some(ActorEvent::DeathAnimation)
        } else if d == 4 {
            Some(ActorEvent::ArmSwing)
        } else if d == 5 {
            Some(ActorEvent::StopAttack)
        } else if d == 6 {
            Some(ActorEvent::TameFail)
        } else if d == 7 {
            Some(ActorEvent::TameSuccess)
        } else if d == 8 {
            Some(ActorEvent::ShakeWet)
        } else if d == 9 {
            Some(ActorEvent::UseItem)
        } else if d == 10 {
            Some(ActorEvent::EatGrassAnimation)
        } else if d == 11 {
            Some(ActorEvent::FishHookBubble)
        } else if d == 12 {
            Some(ActorEvent::FishHookPosition)
        } else if d == 13 {
            Some(ActorEvent::FishHookHook)
        } else if d == 14 {
            Some(ActorEvent::FishHookTease)
        } else if d == 15 {
            Some(ActorEvent::SquidInkCloud)
        } else if d == 16 {
            Some(ActorEvent::ZombieVillagerCure)
        } else if d == 17 {
            Some(ActorEvent::PlayAmbientSound)
        } else if d == 18 {
            Some(ActorEvent::RESPAWN)
        } else if d == 19 {
            Some(ActorEvent::IronGolemOfferFlower)
        } else if d == 20 {
            Some(ActorEvent::IronGolemWithdrawFlower)
        } else if d == 21 {
            Some(ActorEvent::LoveParticles)
        } else if d == 22 {
            Some(ActorEvent::VillagerAngry)
        } else if d == 23 {
            Some(ActorEvent::VillagerHappy)
        } else if d == 24 {
            Some(ActorEvent::WitchSpellParticles)
        } else if d == 25 {
            Some(ActorEvent::FireworkParticles)
        } else if d == 26 {
            Some(ActorEvent::InLoveParticles)
        } else if d == 27 {
            Some(ActorEvent::SilverfishSpawnAnimation)
        } else if d == 28 {
            Some(ActorEvent::GuardianAttack)
        } else if d == 29 {
            Some(ActorEvent::WitchDrinkPotion)
        } else if d == 30 {
            Some(ActorEvent::WitchThrowPotion)
        } else if d == 31 {
            Some(ActorEvent::MinecartTntPrimeFuse)
        } else if d == 32 {
            Some(ActorEvent::CreeperPrimeFuse)
        } else if d == 33 {
            Some(ActorEvent::AirSupplyExpired)
        } else if d == 34 {
            Some(ActorEvent::PlayerAddXpLevels)
        } else if d == 35 {
            Some(ActorEvent::ElderGuardianCurse)
        } else if d == 36 {
            Some(ActorEvent::AgentArmSwing)
        } else if d == 37 {
            Some(ActorEvent::EnderDragonDeath)
        } else if d == 38 {
            Some(ActorEvent::DustParticles)
        } else if d == 39 {
            Some(ActorEvent::ArrowShake)
        } else if d == 57 {
            Some(ActorEvent::EatingItem)
        } else if d == 60 {
            Some(ActorEvent::BabyAnimalFeed)
        } else if d == 61 {
            Some(ActorEvent::DeathSmokeCloud)
        } else if d == 62 {
            Some(ActorEvent::CompleteTrade)
        } else if d == 63 {
            Some(ActorEvent::RemoveLeash)
        } else if d == 64 {
            Some(ActorEvent::CaravanUpdated)
        } else if d == 65 {
            Some(ActorEvent::ConsumeTotem)
        } else if d == 66 {
            Some(ActorEvent::PlayerCheckTreasureHunterAchievement)
        } else if d == 67 {
            Some(ActorEvent::EntitySpawn)
        } else if d == 68 {
            Some(ActorEvent::DragonPuke)
        } else if d == 69 {
            Some(ActorEvent::ItemEntityMerge)
        } else if d == 70 {
            Some(ActorEvent::StartSwim)
        } else if d == 71 {
            Some(ActorEvent::BalloonPop)
        } else if d == 72 {
            Some(ActorEvent::TreasureHunt)
        } else if d == 73 {
            Some(ActorEvent::AgentSummon)
        } else if d == 74 {
            Some(ActorEvent::ChargedItem)
        } else if d == 75 {
            Some(ActorEvent::FALL)
        } else if d == 76 {
            Some(ActorEvent::GrowUp)
        } else if d == 77 {
            Some(ActorEvent::VibrationDetected)
        } else if d == 78 {
            Some(ActorEvent::DrinkMilk)
        } else {
            None
        }
    }
}

impl Default for ActorEvent {
    fn default() -> (v: Self)
        ensures
            v == ActorEvent::JUMP,
    {
        ActorEvent::JUMP
    }
}

} // verus!
