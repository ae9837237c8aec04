use vstd::prelude::*;

verus! {

/// A day of the week, Monday first.
#[derive(Clone, Copy, Debug, PartialEq, Eq, Structural)]
pub enum Weekday {
    Mon,
    Tue,
    Wed,
    Thu,
    Fri,
    Sat,
    Sun,
}

impl Weekday {
    /// Position in the week: Monday is 0, Sunday is 6.
    pub open spec fn index(self) -> int {
        match self {
            Weekday::Mon => 0,
            Weekday::Tue => 1,
            Weekday::Wed => 2,
            Weekday::Thu => 3,
            Weekday::Fri => 4,
            Weekday::Sat => 5,
            Weekday::Sun => 6,
        }
    }

    /// The lowercase three-letter abbreviation.
    pub open spec fn spec_name(self) -> Seq<char> {
        match self {
            Weekday::Mon => seq!['m', 'o', 'n'],
            Weekday::Tue => seq!['t', 'u', 'e'],
            Weekday::Wed => seq!['w', 'e', 'd'],
            Weekday::Thu => seq!['t', 'h', 'u'],
            Weekday::Fri => seq!['f', 'r', 'i'],
            Weekday::Sat => seq!['s', 'a', 't'],
            Weekday::Sun => seq!['s', 'u', 'n'],
        }
    }

    pub fn from_index(i: u32) -> (r: Weekday)
        requires
            i < 7,
        ensures
            r.index() == i,
    {
        match i {
            0 => Weekday::Mon,
            1 => Weekday::Tue,
            2 => Weekday::Wed,
            3 => Weekday::Thu,
            4 => Weekday::Fri,
            5 => Weekday::Sat,
            _ => Weekday::Sun,
        }
    }

    pub fn name(&self) -> (r: String)
        ensures
            r@ == self.spec_name(),
    {
        let s: &str = match self {
            Weekday::Mon => "mon",
            Weekday::Tue => "tue",
            Weekday::Wed => "wed",
            Weekday::Thu => "thu",
            Weekday::Fri => "fri",
            Weekday::Sat => "sat",
            Weekday::Sun => "sun",
        };
        proof {
            reveal_strlit("mon");
            reveal_strlit("tue");
            reveal_strlit("wed");
            reveal_strlit("thu");
            reveal_strlit("fri");
            reveal_strlit("sat");
            reveal_strlit("sun");
        }
        s.to_owned()
    }

    /// Reads a lowercase three-letter abbreviation; `None` for anything else.
    pub fn from_name(token: &String) -> (r: Option<Weekday>)
        ensures
            match r {
                Some(w) => w.spec_name() == token@,
                None => forall|w: Weekday| w.spec_name() != token@,
            },
    {
        let mut i: u32 = 0;
        while i < 7
            invariant
                0 <= i <= 7,
                forall|w: Weekday| w.index() < i ==> w.spec_name() != token@,
            decreases 7 - i,
        {
            let w = Weekday::from_index(i);
            let n = w.name();
            if n == *token {
                return Some(w);
            }
            i = i + 1;
        }
        None
    }
}

} // verus!
