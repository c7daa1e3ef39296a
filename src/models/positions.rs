use vstd::prelude::*;

verus! {

/// A real-world football position that a player can hold.
#[derive(Clone, Copy, Debug, PartialEq, Eq, Hash, Structural)]
pub enum PositionKind {
    C,
    CB,
    DB,
    DE,
    DEF,
    DL,
    DT,
    FB,
    FS,
    G,
    ILB,
    K,
    KP,
    LB,
    LEO,
    LS,
    NT,
    OG,
    OL,
    OLB,
    OT,
    P,
    QB,
    RB,
    S,
    SS,
    T,
    TE,
    WR,
}

/// A fantasy roster slot as a league lists it in its roster template.
#[allow(non_camel_case_types)]
#[derive(Clone, Copy, Debug, PartialEq, Eq, Hash, Structural)]
pub enum RosterPosition {
    BN,
    C,
    CB,
    DB,
    DE,
    DEF,
    DL,
    DT,
    FB,
    FLEX,
    FS,
    G,
    ILB,
    K,
    KP,
    LB,
    LEO,
    LS,
    NT,
    OG,
    OL,
    OLB,
    OT,
    P,
    QB,
    RB,
    S,
    SS,
    T,
    TE,
    WR,
    WRRB_FLEX,
}

impl PositionKind {
    /// The abbreviation under which the position is published.
    pub open spec fn label_spec(self) -> Seq<char> {
        match self {
            PositionKind::C => "C"@,
            PositionKind::CB => "CB"@,
            PositionKind::DB => "DB"@,
            PositionKind::DE => "DE"@,
            PositionKind::DEF => "DEF"@,
            PositionKind::DL => "DL"@,
            PositionKind::DT => "DT"@,
            PositionKind::FB => "FB"@,
            PositionKind::FS => "FS"@,
            PositionKind::G => "G"@,
            PositionKind::ILB => "ILB"@,
            PositionKind::K => "K"@,
            PositionKind::KP => "K/P"@,
            PositionKind::LB => "LB"@,
            PositionKind::LEO => "LEO"@,
            PositionKind::LS => "LS"@,
            PositionKind::NT => "NT"@,
            PositionKind::OG => "OG"@,
            PositionKind::OL => "OL"@,
            PositionKind::OLB => "OLB"@,
            PositionKind::OT => "OT"@,
            PositionKind::P => "P"@,
            PositionKind::QB => "QB"@,
            PositionKind::RB => "RB"@,
            PositionKind::S => "S"@,
            PositionKind::SS => "SS"@,
            PositionKind::T => "T"@,
            PositionKind::TE => "TE"@,
            PositionKind::WR => "WR"@,
        }
    }

    pub fn label(&self) -> (r: String)
        ensures
            r@ == self.label_spec(),
    {
        let s = match self {
            PositionKind::C => "C",
            PositionKind::CB => "CB",
            PositionKind::DB => "DB",
            PositionKind::DE => "DE",
            PositionKind::DEF => "DEF",
            PositionKind::DL => "DL",
            PositionKind::DT => "DT",
            PositionKind::FB => "FB",
            PositionKind::FS => "FS",
            PositionKind::G => "G",
            PositionKind::ILB => "ILB",
            PositionKind::K => "K",
            PositionKind::KP => "K/P",
            PositionKind::LB => "LB",
            PositionKind::LEO => "LEO",
            PositionKind::LS => "LS",
            PositionKind::NT => "NT",
            PositionKind::OG => "OG",
            PositionKind::OL => "OL",
            PositionKind::OLB => "OLB",
            PositionKind::OT => "OT",
            PositionKind::P => "P",
            PositionKind::QB => "QB",
            PositionKind::RB => "RB",
            PositionKind::S => "S",
            PositionKind::SS => "SS",
            PositionKind::T => "T",
            PositionKind::TE => "TE",
            PositionKind::WR => "WR",
        };
        String::from_str(s)
    }
}

impl RosterPosition {
    /// The positions a slot accepts, in catalog order. Bench accepts none.
    pub open spec fn positions_spec(self) -> Seq<PositionKind> {
        match self {
            RosterPosition::BN => seq![],
            RosterPosition::C => seq![PositionKind::C],
            RosterPosition::CB => seq![PositionKind::CB],
            RosterPosition::DB => seq![PositionKind::DB],
            RosterPosition::DE => seq![PositionKind::DE],
            RosterPosition::DEF => seq![PositionKind::DEF],
            RosterPosition::DL => seq![PositionKind::DL],
            RosterPosition::DT => seq![PositionKind::DT],
            RosterPosition::FB => seq![PositionKind::FB],
            RosterPosition::FLEX => seq![PositionKind::WR, PositionKind::RB, PositionKind::TE],
            RosterPosition::FS => seq![PositionKind::FS],
            RosterPosition::G => seq![PositionKind::G],
            RosterPosition::ILB => seq![PositionKind::ILB],
            RosterPosition::K => seq![PositionKind::K],
            RosterPosition::KP => seq![PositionKind::KP],
            RosterPosition::LB => seq![PositionKind::LB],
            RosterPosition::LEO => seq![PositionKind::LEO],
            RosterPosition::LS => seq![PositionKind::LS],
            RosterPosition::NT => seq![PositionKind::NT],
            RosterPosition::OG => seq![PositionKind::OG],
            RosterPosition::OL => seq![PositionKind::OL],
            RosterPosition::OLB => seq![PositionKind::OLB],
            RosterPosition::OT => seq![PositionKind::OT],
            RosterPosition::P => seq![PositionKind::P],
            RosterPosition::QB => seq![PositionKind::QB],
            RosterPosition::RB => seq![PositionKind::RB],
            RosterPosition::S => seq![PositionKind::S],
            RosterPosition::SS => seq![PositionKind::SS],
            RosterPosition::T => seq![PositionKind::T],
            RosterPosition::TE => seq![PositionKind::TE],
            RosterPosition::WR => seq![PositionKind::WR],
            RosterPosition::WRRB_FLEX => seq![PositionKind::WR, PositionKind::RB],
        }
    }

    /// Whether the slot accepts a player of position `k`.
    pub open spec fn accepts_spec(self, k: PositionKind) -> bool {
        self.positions_spec().contains(k)
    }

    /// How many positions the slot accepts: fewer means more constrained.
    pub open spec fn selectivity_spec(self) -> nat {
        self.positions_spec().len()
    }

    /// The labels of what the slot holds; bench is labelled by itself.
    pub open spec fn value_spec(self) -> Seq<Seq<char>> {
        match self {
            RosterPosition::BN => seq!["BN"@],
            _ => self.positions_spec().map_values(|k: PositionKind| k.label_spec()),
        }
    }

    pub fn eligible_positions(&self) -> (r: Vec<PositionKind>)
        ensures
            r@ == self.positions_spec(),
    {
        match self {
            RosterPosition::BN => vec![],
            RosterPosition::C => vec![PositionKind::C],
            RosterPosition::CB => vec![PositionKind::CB],
            RosterPosition::DB => vec![PositionKind::DB],
            RosterPosition::DE => vec![PositionKind::DE],
            RosterPosition::DEF => vec![PositionKind::DEF],
            RosterPosition::DL => vec![PositionKind::DL],
            RosterPosition::DT => vec![PositionKind::DT],
            RosterPosition::FB => vec![PositionKind::FB],
            RosterPosition::FLEX => vec![PositionKind::WR, PositionKind::RB, PositionKind::TE],
            RosterPosition::FS => vec![PositionKind::FS],
            RosterPosition::G => vec![PositionKind::G],
            RosterPosition::ILB => vec![PositionKind::ILB],
            RosterPosition::K => vec![PositionKind::K],
            RosterPosition::KP => vec![PositionKind::KP],
            RosterPosition::LB => vec![PositionKind::LB],
            RosterPosition::LEO => vec![PositionKind::LEO],
            RosterPosition::LS => vec![PositionKind::LS],
            RosterPosition::NT => vec![PositionKind::NT],
            RosterPosition::OG => vec![PositionKind::OG],
            RosterPosition::OL => vec![PositionKind::OL],
            RosterPosition::OLB => vec![PositionKind::OLB],
            RosterPosition::OT => vec![PositionKind::OT],
            RosterPosition::P => vec![PositionKind::P],
            RosterPosition::QB => vec![PositionKind::QB],
            RosterPosition::RB => vec![PositionKind::RB],
            RosterPosition::S => vec![PositionKind::S],
            RosterPosition::SS => vec![PositionKind::SS],
            RosterPosition::T => vec![PositionKind::T],
            RosterPosition::TE => vec![PositionKind::TE],
            RosterPosition::WR => vec![PositionKind::WR],
            RosterPosition::WRRB_FLEX => vec![PositionKind::WR, PositionKind::RB],
        }
    }

    pub fn selectivity(&self) -> (r: usize)
        ensures
            r == self.selectivity_spec(),
    {
        match self {
            RosterPosition::BN => 0,
            RosterPosition::FLEX => 3,
            RosterPosition::WRRB_FLEX => 2,
            _ => 1,
        }
    }

    pub fn accepts(&self, k: PositionKind) -> (r: bool)
        ensures
            r == self.accepts_spec(k),
    {
        let ps = self.eligible_positions();
        let mut i: usize = 0;
        while i < ps.len()
            invariant
                0 <= i <= ps@.len(),
                ps@ == self.positions_spec(),
                forall|j: int| 0 <= j < i ==> ps@[j] != k,
            decreases ps@.len() - i,
        {
            if ps[i] == k {
                return true;
            }
            i += 1;
        }
        false
    }

    /// The labels of the positions the slot accepts (bench: its own label).
    pub fn value(&self) -> (r: Vec<String>)
        ensures
            r@.len() == self.value_spec().len(),
            forall|i: int| 0 <= i < r@.len() ==> #[trigger] r@[i]@ == self.value_spec()[i],
    {
        if let RosterPosition::BN = self {
            return vec![String::from_str("BN")];
        }
        let ps = self.eligible_positions();
        let mut out: Vec<String> = Vec::new();
        let mut i: usize = 0;
        while i < ps.len()
            invariant
                0 <= i <= ps@.len(),
                ps@ == self.positions_spec(),
                out@.len() == i,
                forall|j: int| 0 <= j < i ==> #[trigger] out@[j]@ == ps@[j].label_spec(),
            decreases ps@.len() - i,
        {
            out.push(ps[i].label());
            i += 1;
        }
        out
    }
}

} // verus!
