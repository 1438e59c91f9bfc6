use vstd::prelude::*;

verus! {

/// a value that is filled in after its owner has been created.
///
/// A [`Late`] tracks whether it has been initialized, and its contents can
/// only be read once it has been: reading an uninitialized [`Late`] is
/// ruled out by the `requires` of [`Late::get`] and [`Late::get_mut`].
///
/// # Example
/// ```
/// # use lockrs::utils::late::Late;
/// let mut late = Late::<String>::uninit();
/// late.init(String::from("sorry im late"));
/// assert_eq!(late.get().as_str(), "sorry im late");
/// ```
pub struct Late<T> {
    slot: Option<T>,
}

/// one call made on a [`Late`], as far as what it holds is concerned
pub enum LateCall<T> {
    /// [`Late::init`] with this value
    Init(T),
    /// [`Late::is_init`] or [`Late::get`], which only read
    Read,
    /// [`Late::get_mut`], after which this value was left behind the borrow
    Write(T),
}

/// what a [`Late`] holds after `call`, when it held `held` before
pub open spec fn late_after_call<T>(held: Option<T>, call: LateCall<T>) -> Option<T> {
    match call {
        LateCall::Init(v) => Some(v),
        LateCall::Read => held,
        LateCall::Write(v) => if held is Some {
            Some(v)
        } else {
            held
        },
    }
}

/// what a [`Late`] holds after each of `calls`, in order, when it held `held` before
pub open spec fn late_after_calls<T>(held: Option<T>, calls: Seq<LateCall<T>>) -> Option<T>
    decreases calls.len(),
{
    if calls.len() == 0 {
        held
    } else {
        late_after_call(late_after_calls(held, calls.drop_last()), calls.last())
    }
}

/// A [`Late`] made by [`Late::uninit`] (or `default`) is initialized after a
/// sequence of calls exactly when [`Late::init`] is among them: reading it
/// ([`Late::is_init`], [`Late::get`]) and writing through [`Late::get_mut`]
/// never initialize it nor take its value away.
pub proof fn lemma_initialized_iff_init_called<T>(calls: Seq<LateCall<T>>)
    ensures
        late_after_calls(None, calls) is Some <==> exists|i: int| 0 <= i < calls.len() && calls[i] is Init,
    decreases calls.len(),
{
    if calls.len() > 0 {
        let front = calls.drop_last();
        lemma_initialized_iff_init_called(front);
        if exists|i: int| 0 <= i < front.len() && front[i] is Init {
            let i = choose|i: int| 0 <= i < front.len() && front[i] is Init;
            assert(calls[i] is Init);
        }
        if exists|i: int| 0 <= i < calls.len() && calls[i] is Init {
            let i = choose|i: int| 0 <= i < calls.len() && calls[i] is Init;
            if i < calls.len() - 1 {
                assert(front[i] is Init);
            }
        }
    }
}

impl<T> View for Late<T> {
    type V = Option<T>;

    /// `None` while uninitialized, `Some` of the stored value afterwards.
    closed spec fn view(&self) -> Option<T> {
        self.slot
    }
}

impl<T> Default for Late<T> {
    /// an uninitialized [`Late`], as [`Late::uninit`].
    fn default() -> (late: Self)
        ensures
            late@ is None,
    {
        Self::uninit()
    }
}

impl<T> Late<T> {
    /// create a new uninitialized [`Late`].
    pub fn uninit() -> (late: Self)
        ensures
            late@ is None,
    {
        Late { slot: None }
    }

    /// initialize the [`Late`] to a value.
    /// If it had already been initialized, the old value is dropped and
    /// the new one takes its place.
    pub fn init(&mut self, val: T)
        ensures
            final(self)@ == Some(val),
            final(self)@ == late_after_call(old(self)@, LateCall::Init(val)),
    {
        self.slot = Some(val);
    }

    /// checks whether [`Late::init`] has been called.
    pub fn is_init(&self) -> (b: bool)
        ensures
            b == self@ is Some,
    {
        self.slot.is_some()
    }

    /// borrow the stored value; the [`Late`] must have been initialized.
    pub fn get(&self) -> (r: &T)
        requires
            self@ is Some,
        ensures
            *r == self@->0,
    {
        self.slot.as_ref().unwrap()
    }

    /// mutably borrow the stored value; the [`Late`] must have been initialized.
    /// What is written through the borrow is what the [`Late`] holds afterwards.
    pub fn get_mut(&mut self) -> (r: &mut T)
        requires
            old(self)@ is Some,
        ensures
            *r == old(self)@->0,
            final(self)@ == Some(*final(r)),
            final(self)@ == late_after_call(old(self)@, LateCall::Write(*final(r))),
    {
        self.slot.as_mut().unwrap()
    }
}

} // verus!
