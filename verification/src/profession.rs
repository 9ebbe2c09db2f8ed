//! Professions, sub-professions and combat stance.

use vstd::prelude::*;

verus! {

/// Whether an operator is primarily melee or primarily ranged.
#[derive(Debug, Clone, Copy, PartialEq, Eq, Structural, Hash)]
pub enum Position {
    Melee,
    Ranged,
}

/// An operator's primary profession.
#[derive(Debug, Clone, Copy, PartialEq, Eq, Structural, Hash)]
pub enum Profession {
    Caster,
    Medic,
    Vanguard,
    Sniper,
    Specialist,
    Support,
    Tank,
    Guard,
}

/// An operator's secondary sub-profession.
#[derive(Debug, Clone, Copy, PartialEq, Eq, Structural, Hash)]
#[non_exhaustive]
pub enum SubProfession {
    BlastCaster,
    ChainCaster,
    CoreCaster,
    MechAccordCaster,
    MysticCaster,
    PhalanxCaster,
    SplashCaster,
    Therapist,
    Medic,
    MultiTargetMedic,
    WanderingMedic,
    StandardBearer,
    Charger,
    Pioneer,
    Tactician,
    Artilleryman,
    Flinger,
    Heavyshooter,
    Marksman,
    Deadeye,
    Spreadshooter,
    Besieger,
    Dollkeeper,
    Executor,
    Geek,
    Hookmaster,
    Merchant,
    PushStroker,
    Ambusher,
    Trapmaster,
    Bard,
    Abjurer,
    Artificer,
    DecelBinder,
    Summoner,
    Hexer,
    ArtsProtector,
    Duelist,
    Fortress,
    Guardian,
    Protector,
    Juggernaut,
    ArtsFighter,
    Centurion,
    Dreadnought,
    Fighter,
    Instructor,
    Liberator,
    Lord,
    Musha,
    Reaper,
    Swordmaster,
}

impl SubProfession {
    /// The primary profession each sub-profession belongs to.
    pub open spec fn spec_to_profession(self) -> Profession {
        match self {
            SubProfession::BlastCaster => Profession::Caster,
            SubProfession::ChainCaster => Profession::Caster,
            SubProfession::CoreCaster => Profession::Caster,
            SubProfession::MechAccordCaster => Profession::Caster,
            SubProfession::MysticCaster => Profession::Caster,
            SubProfession::PhalanxCaster => Profession::Caster,
            SubProfession::SplashCaster => Profession::Caster,
            SubProfession::Therapist => Profession::Medic,
            SubProfession::Medic => Profession::Medic,
            SubProfession::MultiTargetMedic => Profession::Medic,
            SubProfession::WanderingMedic => Profession::Medic,
            SubProfession::StandardBearer => Profession::Vanguard,
            SubProfession::Charger => Profession::Vanguard,
            SubProfession::Pioneer => Profession::Vanguard,
            SubProfession::Tactician => Profession::Vanguard,
            SubProfession::Artilleryman => Profession::Sniper,
            SubProfession::Flinger => Profession::Sniper,
            SubProfession::Heavyshooter => Profession::Sniper,
            SubProfession::Marksman => Profession::Sniper,
            SubProfession::Deadeye => Profession::Sniper,
            SubProfession::Spreadshooter => Profession::Sniper,
            SubProfession::Besieger => Profession::Sniper,
            SubProfession::Dollkeeper => Profession::Specialist,
            SubProfession::Executor => Profession::Specialist,
            SubProfession::Geek => Profession::Specialist,
            SubProfession::Hookmaster => Profession::Specialist,
            SubProfession::Merchant => Profession::Specialist,
            SubProfession::PushStroker => Profession::Specialist,
            SubProfession::Ambusher => Profession::Specialist,
            SubProfession::Trapmaster => Profession::Specialist,
            SubProfession::Bard => Profession::Support,
            SubProfession::Abjurer => Profession::Support,
            SubProfession::Artificer => Profession::Support,
            SubProfession::DecelBinder => Profession::Support,
            SubProfession::Summoner => Profession::Support,
            SubProfession::Hexer => Profession::Support,
            SubProfession::ArtsProtector => Profession::Tank,
            SubProfession::Duelist => Profession::Tank,
            SubProfession::Fortress => Profession::Tank,
            SubProfession::Guardian => Profession::Tank,
            SubProfession::Protector => Profession::Tank,
            SubProfession::Juggernaut => Profession::Tank,
            SubProfession::ArtsFighter => Profession::Guard,
            SubProfession::Centurion => Profession::Guard,
            SubProfession::Dreadnought => Profession::Guard,
            SubProfession::Fighter => Profession::Guard,
            SubProfession::Instructor => Profession::Guard,
            SubProfession::Liberator => Profession::Guard,
            SubProfession::Lord => Profession::Guard,
            SubProfession::Musha => Profession::Guard,
            SubProfession::Reaper => Profession::Guard,
            SubProfession::Swordmaster => Profession::Guard,
        }
    }

    /// Gets the [`Profession`] that this [`SubProfession`] belongs to.
    pub fn to_profession(self) -> (r: Profession)
        ensures
            r == self.spec_to_profession(),
    {
        match self {
            SubProfession::BlastCaster => Profession::Caster,
            SubProfession::ChainCaster => Profession::Caster,
            SubProfession::CoreCaster => Profession::Caster,
            SubProfession::MechAccordCaster => Profession::Caster,
            SubProfession::MysticCaster => Profession::Caster,
            SubProfession::PhalanxCaster => Profession::Caster,
            SubProfession::SplashCaster => Profession::Caster,
            SubProfession::Therapist => Profession::Medic,
            SubProfession::Medic => Profession::Medic,
            SubProfession::MultiTargetMedic => Profession::Medic,
            SubProfession::WanderingMedic => Profession::Medic,
            SubProfession::StandardBearer => Profession::Vanguard,
            SubProfession::Charger => Profession::Vanguard,
            SubProfession::Pioneer => Profession::Vanguard,
            SubProfession::Tactician => Profession::Vanguard,
            SubProfession::Artilleryman => Profession::Sniper,
            SubProfession::Flinger => Profession::Sniper,
            SubProfession::Heavyshooter => Profession::Sniper,
            SubProfession::Marksman => Profession::Sniper,
            SubProfession::Deadeye => Profession::Sniper,
            SubProfession::Spreadshooter => Profession::Sniper,
            SubProfession::Besieger => Profession::Sniper,
            SubProfession::Dollkeeper => Profession::Specialist,
            SubProfession::Executor => Profession::Specialist,
            SubProfession::Geek => Profession::Specialist,
            SubProfession::Hookmaster => Profession::Specialist,
            SubProfession::Merchant => Profession::Specialist,
            SubProfession::PushStroker => Profession::Specialist,
            SubProfession::Ambusher => Profession::Specialist,
            SubProfession::Trapmaster => Profession::Specialist,
            SubProfession::Bard => Profession::Support,
            SubProfession::Abjurer => Profession::Support,
            SubProfession::Artificer => Profession::Support,
            SubProfession::DecelBinder => Profession::Support,
            SubProfession::Summoner => Profession::Support,
            SubProfession::Hexer => Profession::Support,
            SubProfession::ArtsProtector => Profession::Tank,
            SubProfession::Duelist => Profession::Tank,
            SubProfession::Fortress => Profession::Tank,
            SubProfession::Guardian => Profession::Tank,
            SubProfession::Protector => Profession::Tank,
            SubProfession::Juggernaut => Profession::Tank,
            SubProfession::ArtsFighter => Profession::Guard,
            SubProfession::Centurion => Profession::Guard,
            SubProfession::Dreadnought => Profession::Guard,
            SubProfession::Fighter => Profession::Guard,
            SubProfession::Instructor => Profession::Guard,
            SubProfession::Liberator => Profession::Guard,
            SubProfession::Lord => Profession::Guard,
            SubProfession::Musha => Profession::Guard,
            SubProfession::Reaper => Profession::Guard,
            SubProfession::Swordmaster => Profession::Guard,
        }
    }
}

} // verus!
