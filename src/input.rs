use vstd::prelude::*;

verus! {

/// A key that steers the active camera.
#[derive(Clone, Copy, Debug, PartialEq, Eq, Structural)]
pub enum InputKey {
    W,
    A,
    S,
    D,
    Q,
    E,
}

/// One step applied to the active camera's transform during a frame.
#[derive(Clone, Copy, Debug, PartialEq, Eq, Structural)]
pub enum CameraMove {
    /// Key A.
    Left,
    /// Key D.
    Right,
    /// Key S.
    Backward,
    /// Key W.
    Forward,
    /// Key Q: roll about +Z.
    RollPositive,
    /// Key E: roll about -Z.
    RollNegative,
}

/// Which steering keys are held down.
#[derive(Clone, Copy, Debug)]
pub struct Input {
    pub w: bool,
    pub a: bool,
    pub s: bool,
    pub d: bool,
    pub q: bool,
    pub e: bool,
}

/// The moves that the held keys ask for, in the order they are applied: A, D, S, W, Q, E.
pub open spec fn moves_of(i: Input) -> Seq<CameraMove> {
    (if i.a { seq![CameraMove::Left] } else { Seq::empty() })
        + (if i.d { seq![CameraMove::Right] } else { Seq::empty() })
        + (if i.s { seq![CameraMove::Backward] } else { Seq::empty() })
        + (if i.w { seq![CameraMove::Forward] } else { Seq::empty() })
        + (if i.q { seq![CameraMove::RollPositive] } else { Seq::empty() })
        + (if i.e { seq![CameraMove::RollNegative] } else { Seq::empty() })
}

impl Input {
    /// No key held.
    pub fn new() -> (r: Self)
        ensures
            !r.w && !r.a && !r.s && !r.d && !r.q && !r.e,
    {
        Input { w: false, a: false, s: false, d: false, q: false, e: false }
    }

    /// Records that `key` was pressed (`true`) or released (`false`).
    pub fn set_key(&mut self, key: InputKey, pressed: bool)
        ensures
            final(self).w == (if key == InputKey::W { pressed } else { old(self).w }),
            final(self).a == (if key == InputKey::A { pressed } else { old(self).a }),
            final(self).s == (if key == InputKey::S { pressed } else { old(self).s }),
            final(self).d == (if key == InputKey::D { pressed } else { old(self).d }),
            final(self).q == (if key == InputKey::Q { pressed } else { old(self).q }),
            final(self).e == (if key == InputKey::E { pressed } else { old(self).e }),
    {
        match key {
            InputKey::W => self.w = pressed,
            InputKey::A => self.a = pressed,
            InputKey::S => self.s = pressed,
            InputKey::D => self.d = pressed,
            InputKey::Q => self.q = pressed,
            InputKey::E => self.e = pressed,
        }
    }

    /// The moves to apply to the active camera this frame.
    pub fn camera_moves(&self) -> (r: Vec<CameraMove>)
        ensures
            r@ == moves_of(*self),
    {
        let mut r: Vec<CameraMove> = Vec::new();
        let ghost empty = Seq::<CameraMove>::empty();
        if self.a {
            r.push(CameraMove::Left);
        }
        assert(r@ =~= (if self.a { seq![CameraMove::Left] } else { empty }));
        if self.d {
            r.push(CameraMove::Right);
        }
        assert(r@ =~= (if self.a { seq![CameraMove::Left] } else { empty })
            + (if self.d { seq![CameraMove::Right] } else { empty }));
        if self.s {
            r.push(CameraMove::Backward);
        }
        assert(r@ =~= (if self.a { seq![CameraMove::Left] } else { empty })
            + (if self.d { seq![CameraMove::Right] } else { empty })
            + (if self.s { seq![CameraMove::Backward] } else { empty }));
        if self.w {
            r.push(CameraMove::Forward);
        }
        assert(r@ =~= (if self.a { seq![CameraMove::Left] } else { empty })
            + (if self.d { seq![CameraMove::Right] } else { empty })
            + (if self.s { seq![CameraMove::Backward] } else { empty })
            + (if self.w { seq![CameraMove::Forward] } else { empty }));
        if self.q {
            r.push(CameraMove::RollPositive);
        }
        assert(r@ =~= (if self.a { seq![CameraMove::Left] } else { empty })
            + (if self.d { seq![CameraMove::Right] } else { empty })
            + (if self.s { seq![CameraMove::Backward] } else { empty })
            + (if self.w { seq![CameraMove::Forward] } else { empty })
            + (if self.q { seq![CameraMove::RollPositive] } else { empty }));
        if self.e {
            r.push(CameraMove::RollNegative);
        }
        assert(r@ =~= moves_of(*self));
        r
    }
}

} // verus!
