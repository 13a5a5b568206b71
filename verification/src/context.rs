//! The stack of context frames, one for each native call that is under way, and
//! the execution context that binds the store to the address on top of it.

use vstd::prelude::*;
use crate::primitives::{Address, U256};
use crate::storage::{CellKey, Storage};
use crate::events::{LogRecord, LogModel, logs_view, words_view};
use crate::error::{PrecompileError, Result};

verus! {

/// The stack after a frame for `address` was pushed.
pub open spec fn entered(stack: Seq<Seq<u8>>, address: Seq<u8>) -> Seq<Seq<u8>> {
    stack.push(address)
}

/// The stack after its top frame was popped; an empty stack stays empty.
pub open spec fn exited(stack: Seq<Seq<u8>>) -> Seq<Seq<u8>> {
    if stack.len() == 0 {
        stack
    } else {
        stack.drop_last()
    }
}

/// The call depth that is reported for a stack of `frames` frames.
pub open spec fn reported_depth(frames: nat) -> u32 {
    if frames <= u32::MAX {
        frames as u32
    } else {
        u32::MAX
    }
}

/// One frame as an observer sees it: the address that the call runs at, and the
/// depth of the call that made it.
#[derive(Clone, Copy, Debug)]
pub struct ContextFrame {
    pub address: Address,
    pub parent_depth: u32,
}

/// The stack of the addresses at which native calls are under way, the
/// outermost call first.
pub struct ContextStack {
    frames: Vec<Address>,
}

impl View for ContextStack {
    type V = Seq<Seq<u8>>;

    closed spec fn view(&self) -> Seq<Seq<u8>> {
        Seq::new(self.frames@.len(), |i: int| self.frames@[i]@)
    }
}

impl ContextStack {
    /// A stack without frames.
    pub fn new() -> (r: ContextStack)
        ensures
            r@ == Seq::<Seq<u8>>::empty(),
    {
        let r = ContextStack { frames: Vec::new() };
        assert(r@ =~= Seq::<Seq<u8>>::empty());
        r
    }

    /// A copy of the stack.
    pub fn duplicate(&self) -> (r: ContextStack)
        ensures
            r@ == self@,
    {
        let mut frames: Vec<Address> = Vec::new();
        let mut i: usize = 0;
        while i < self.frames.len()
            invariant
                i <= self.frames@.len(),
                frames@ == self.frames@.subrange(0, i as int),
            decreases self.frames@.len() - i,
        {
            frames.push(self.frames[i]);
            assert(frames@ =~= self.frames@.subrange(0, i + 1));
            i = i + 1;
        }
        assert(self.frames@.subrange(0, self.frames@.len() as int) =~= self.frames@);
        let r = ContextStack { frames };
        assert(r@ =~= self@);
        r
    }

    /// Pushes a frame for `address`.
    pub fn enter(&mut self, address: Address)
        ensures
            final(self)@ == entered(old(self)@, address@),
    {
        self.frames.push(address);
        assert(self@ =~= entered(old(self)@, address@));
    }

    /// Pops the top frame. Without a frame, nothing happens.
    pub fn exit(&mut self)
        ensures
            final(self)@ == exited(old(self)@),
    {
        let _ = self.frames.pop();
        assert(self@ =~= exited(old(self)@));
    }

    /// The address of the top frame, if there is a frame.
    pub fn current_address(&self) -> (r: Option<Address>)
        ensures
            r is Some <==> self@.len() > 0,
            r is Some ==> r->0@ == self@.last(),
    {
        let n = self.frames.len();
        if n == 0 {
            None
        } else {
            Some(self.frames[n - 1])
        }
    }

    /// The number of frames on the stack.
    pub fn call_depth(&self) -> (r: u32)
        ensures
            r == reported_depth(self@.len()),
    {
        let n = self.frames.len();
        if n <= u32::MAX as usize {
            n as u32
        } else {
            u32::MAX
        }
    }

    /// The top frame, if there is a frame.
    pub fn current_frame(&self) -> (r: Option<ContextFrame>)
        ensures
            r is Some <==> self@.len() > 0,
            r is Some ==> r->0.address@ == self@.last() && r->0.parent_depth == reported_depth(
                (self@.len() - 1) as nat,
            ),
    {
        let n = self.frames.len();
        if n == 0 {
            None
        } else {
            let below = n - 1;
            let parent_depth: u32 = if below <= u32::MAX as usize {
                below as u32
            } else {
                u32::MAX
            };
            Some(ContextFrame { address: self.frames[n - 1], parent_depth })
        }
    }
}

/// Two calls that nest leave the stack as it was; inside the inner call the top
/// address is the inner one, and after it the outer one again.
pub proof fn lemma_context_nesting(stack: Seq<Seq<u8>>, a: Seq<u8>, b: Seq<u8>)
    ensures
        entered(entered(stack, a), b).last() == b,
        exited(entered(entered(stack, a), b)) == entered(stack, a),
        exited(entered(entered(stack, a), b)).last() == a,
        exited(exited(entered(entered(stack, a), b))) == stack,
        entered(stack, a).len() == stack.len() + 1,
        exited(entered(stack, a)) == stack,
{
    assert(entered(stack, a).drop_last() =~= stack);
    assert(entered(entered(stack, a), b).drop_last() =~= entered(stack, a));
}

/// The store as a context holds it: its own, to read and to write, or that of
/// the context that made a static call, to read only.
pub enum Store<'a> {
    Owned(Storage),
    Borrowed(&'a Storage),
}

impl View for Store<'_> {
    type V = Map<CellKey, Seq<u8>>;

    open spec fn view(&self) -> Map<CellKey, Seq<u8>> {
        self.get()@
    }
}

impl<'a> Store<'a> {
    /// The store that is held.
    pub open spec fn get(&self) -> Storage {
        match self {
            Store::Owned(storage) => *storage,
            Store::Borrowed(storage) => **storage,
        }
    }

    /// Whether the store is held to read only.
    pub open spec fn frozen(&self) -> bool {
        self is Borrowed
    }

    /// The word that the cell `(address, slot)` reads as.
    pub open spec fn word_at(&self, address: Seq<u8>, slot: Seq<u8>) -> Seq<u8> {
        self.get().word_at(address, slot)
    }

    /// Every cell reads as the 32 bytes of a word.
    pub proof fn lemma_word_len(&self, address: Seq<u8>, slot: Seq<u8>)
        ensures
            self.word_at(address, slot).len() == 32,
    {
        self.get().lemma_word_len(address, slot);
    }

    /// The store that is held, to read.
    pub fn as_ref(&self) -> (r: &Storage)
        ensures
            *r == self.get(),
    {
        match self {
            Store::Owned(storage) => storage,
            Store::Borrowed(storage) => storage,
        }
    }

    /// Reads the word of the cell `(address, slot)`.
    pub fn sload(&self, address: &Address, slot: &U256) -> (r: U256)
        ensures
            r@ == self.word_at(address@, slot@),
    {
        self.as_ref().sload(address, slot)
    }
}

/// The state that a native call runs in: the store, the stack of context frames
/// and the event log. A contract reads and writes the store under the address of
/// the top frame. In a static call the store is read only and nothing is logged.
pub struct Context<'a> {
    pub storage: Store<'a>,
    pub stack: ContextStack,
    pub logs: Vec<LogRecord>,
}

/// Whether the context `inner` is `outer` with a frame for `address` on top.
pub open spec fn framed(outer: Context, inner: Context, address: Seq<u8>) -> bool {
    inner.stack@ == entered(outer.stack@, address) && inner.storage == outer.storage && inner.logs
        == outer.logs
}

/// Whether the context `outer` is `inner` without its top frame.
pub open spec fn unframed(inner: Context, outer: Context) -> bool {
    outer.stack@ == exited(inner.stack@) && outer.storage == inner.storage && outer.logs
        == inner.logs
}

/// Whether the context `after` is what a call leaves of the context `before`
/// that ended in the context `inner`: the store and the log of `inner`, under
/// the frames of `before`.
pub open spec fn released(before: Context, inner: Context, after: Context) -> bool {
    after.stack@ == before.stack@ && after.storage == inner.storage && after.logs == inner.logs
}

/// Whether the context `inner` is what a static call at `address` from the
/// context `outer` runs in: it reads the store of `outer`, cannot write it, has
/// a frame for `address` on top, and an empty log of its own.
pub open spec fn static_framed(outer: Context, inner: Context, address: Seq<u8>) -> bool {
    inner.is_static() && inner.storage.get() == outer.storage.get() && inner.stack@ == entered(
        outer.stack@,
        address,
    ) && inner.logs@ == Seq::<LogRecord>::empty()
}

/// Whether the context `inner` is the context `outer` made static: it reads the
/// store of `outer`, cannot write it, has the frames of `outer`, and an empty
/// log of its own.
pub open spec fn static_view_of(outer: Context, inner: Context) -> bool {
    inner.is_static() && inner.storage.get() == outer.storage.get() && inner.stack@
        == outer.stack@ && inner.logs@ == Seq::<LogRecord>::empty()
}

impl<'a> Context<'a> {
    /// A context over `storage`, with no frame and an empty log.
    pub fn new(storage: Storage) -> (r: Context<'a>)
        ensures
            r.storage@ == storage@,
            r.storage == Store::Owned(storage),
            r.stack@ == Seq::<Seq<u8>>::empty(),
            r.logs@ == Seq::<LogRecord>::empty(),
    {
        Context { storage: Store::Owned(storage), stack: ContextStack::new(), logs: Vec::new() }
    }

    /// Whether a frame is active.
    pub open spec fn active(&self) -> bool {
        self.stack@.len() > 0
    }

    /// Whether the context is that of a static call.
    pub open spec fn is_static(&self) -> bool {
        self.storage.frozen()
    }

    /// Why nothing can be written or logged, if that is so: no frame is
    /// active, or the call is static.
    pub open spec fn refusal(&self) -> Option<PrecompileError> {
        if !self.active() {
            Some(PrecompileError::NoActiveContext)
        } else if self.is_static() {
            Some(PrecompileError::StateMutabilityViolation)
        } else {
            None
        }
    }

    /// The address whose storage is read and written; meaningful while a frame
    /// is active.
    pub open spec fn address(&self) -> Seq<u8> {
        self.stack@.last()
    }

    /// The records of the log as plain values.
    pub open spec fn log(&self) -> Seq<LogModel> {
        logs_view(self.logs@)
    }

    /// Decides whether the context is that of a static call.
    pub fn in_static_call(&self) -> (r: bool)
        ensures
            r == self.is_static(),
    {
        match &self.storage {
            Store::Owned(_) => false,
            Store::Borrowed(_) => true,
        }
    }

    /// Says why nothing can be written or logged, if that is so.
    pub fn check_writable(&self) -> (r: Result<()>)
        ensures
            match r {
                Ok(_) => self.refusal() is None,
                Err(e) => self.refusal() == Some(e),
            },
    {
        match self.stack.current_address() {
            None => Err(PrecompileError::NoActiveContext),
            Some(_) => {
                if self.in_static_call() {
                    Err(PrecompileError::StateMutabilityViolation)
                } else {
                    Ok(())
                }
            },
        }
    }

    /// This context made static: it reads the same store and cannot write it.
    pub fn static_view(&self) -> (r: Context<'_>)
        ensures
            static_view_of(*self, r),
    {
        Context {
            storage: Store::Borrowed(self.storage.as_ref()),
            stack: self.stack.duplicate(),
            logs: Vec::new(),
        }
    }

    /// Begins a native call at `address`: pushes its frame.
    pub fn enter(&mut self, address: Address)
        ensures
            final(self).stack@ == entered(old(self).stack@, address@),
            final(self).storage == old(self).storage,
            final(self).logs == old(self).logs,
    {
        self.stack.enter(address);
    }

    /// Ends the innermost native call: pops its frame.
    pub fn exit(&mut self)
        ensures
            final(self).stack@ == exited(old(self).stack@),
            final(self).storage == old(self).storage,
            final(self).logs == old(self).logs,
    {
        self.stack.exit();
    }

    /// The address of the top frame.
    pub fn current_address(&self) -> (r: Result<Address>)
        ensures
            r is Ok <==> self.active(),
            r is Ok ==> r->Ok_0@ == self.address(),
            r is Err ==> r->Err_0 == PrecompileError::NoActiveContext,
    {
        match self.stack.current_address() {
            Some(address) => Ok(address),
            None => Err(PrecompileError::NoActiveContext),
        }
    }

    /// The number of frames on the stack; zero outside any call.
    pub fn call_depth(&self) -> (r: u32)
        ensures
            r == reported_depth(self.stack@.len()),
    {
        self.stack.call_depth()
    }

    /// Reads the word at `slot` of the current address.
    pub fn sload(&self, slot: &U256) -> (r: Result<U256>)
        ensures
            r is Ok <==> self.active(),
            r is Ok ==> r->Ok_0@ == self.storage.word_at(self.address(), slot@),
            r is Err ==> r->Err_0 == PrecompileError::NoActiveContext,
    {
        match self.stack.current_address() {
            Some(address) => Ok(self.storage.sload(&address, slot)),
            None => Err(PrecompileError::NoActiveContext),
        }
    }

    /// Writes `value` at `slot` of the current address. Without an active frame
    /// and in a static call it fails, and nothing is written.
    pub fn sstore(&mut self, slot: &U256, value: &U256) -> (r: Result<()>)
        ensures
            match r {
                Ok(_) => old(self).refusal() is None
                    && final(self).storage@ == old(self).storage@.insert(
                    (old(self).address(), slot@),
                    value@,
                ) && !final(self).is_static(),
                Err(e) => old(self).refusal() == Some(e)
                    && final(self).storage == old(self).storage,
            },
            final(self).stack == old(self).stack,
            final(self).logs == old(self).logs,
    {
        match self.stack.current_address() {
            Some(address) => {
                match &mut self.storage {
                    Store::Owned(storage) => {
                        storage.sstore(&address, slot, value);
                        Ok(())
                    },
                    Store::Borrowed(_) => Err(PrecompileError::StateMutabilityViolation),
                }
            },
            None => Err(PrecompileError::NoActiveContext),
        }
    }

    /// Appends a record of the current address to the log. Without an active
    /// frame and in a static call it fails, and nothing is logged.
    pub fn emit(&mut self, topics: Vec<U256>, data: Vec<u8>) -> (r: Result<()>)
        ensures
            match r {
                Ok(_) => old(self).refusal() is None && final(self).log() == old(self).log().push(
                    (LogModel {
                        address: old(self).address(),
                        topics: words_view(topics@),
                        data: data@,
                    }),
                ),
                Err(e) => old(self).refusal() == Some(e) && final(self).logs == old(self).logs,
            },
            final(self).stack == old(self).stack,
            final(self).storage == old(self).storage,
    {
        match self.check_writable() {
            Err(e) => {
                return Err(e);
            },
            Ok(_) => {},
        }
        match self.stack.current_address() {
            Some(address) => {
                let ghost model = LogModel {
                    address: address@,
                    topics: words_view(topics@),
                    data: data@,
                };
                self.logs.push(LogRecord { address, topics, data });
                assert(self.log() =~= old(self).log().push(model));
                Ok(())
            },
            None => Err(PrecompileError::NoActiveContext),
        }
    }

    /// Runs `body` in a frame for `address`. The frame is pushed before `body`
    /// runs, and after it the frames are again those from before, whatever
    /// `body` returns and whatever it did to the frames.
    pub fn with_frame<F, R>(&mut self, address: Address, body: F) -> (r: R) where
        F: FnOnce(&mut Context) -> R,
        requires
            forall|inner: &mut Context|
                framed(*old(self), *inner, address@) ==> call_requires(body, (inner,)),
        ensures
            final(self).stack@ == old(self).stack@,
            exists|inner: &mut Context|
                framed(*old(self), *inner, address@) && #[trigger] call_ensures(
                    body,
                    (inner,),
                    r,
                ) && released(*old(self), *final(inner), *final(self)),
    {
        let frames = self.stack.duplicate();
        self.enter(address);
        assert(framed(*old(self), *self, address@));
        let r = body(self);
        self.stack = frames;
        r
    }

    /// Runs `body` in a frame for `address` of a static call. `body` reads the
    /// store of this context and cannot write it; this context is afterwards
    /// as it was, whatever `body` returns and whatever it did.
    pub fn with_static_frame<F, R>(&mut self, address: Address, body: F) -> (r: R) where
        F: FnOnce(&mut Context) -> R,
        requires
            forall|inner: &mut Context|
                static_framed(*old(self), *inner, address@) ==> call_requires(body, (inner,)),
        ensures
            *final(self) == *old(self),
            exists|inner: &mut Context|
                static_framed(*old(self), *inner, address@) && #[trigger] call_ensures(
                    body,
                    (inner,),
                    r,
                ),
    {
        let mut inner = self.static_view();
        inner.enter(address);
        assert(static_framed(*old(self), inner, address@));
        let r = body(&mut inner);
        r
    }
}

/// What an inner frame wrote is there for the outer frame once the inner frame
/// is gone: the store of the outer frame holds the word under the address of
/// the inner frame, every other cell is as it was, and the frames are those
/// from before the call.
pub proof fn lemma_inner_write_visible(
    outer: Context,
    inner: Context,
    written: Context,
    after: Context,
    address: Seq<u8>,
    slot: Seq<u8>,
    word: Seq<u8>,
)
    requires
        framed(outer, inner, address),
        written.stack@ == inner.stack@,
        written.storage@ == inner.storage@.insert((inner.address(), slot), word),
        unframed(written, after),
    ensures
        after.stack@ == outer.stack@,
        after.storage.word_at(address, slot) == word,
        forall|a: Seq<u8>, s: Seq<u8>|
            (a, s) != (address, slot) ==> #[trigger] after.storage.word_at(a, s)
                == outer.storage.word_at(a, s),
{
    assert(entered(outer.stack@, address).drop_last() =~= outer.stack@);
    assert(inner.address() == address);
}

/// A call runs one frame deeper than the context that made it, at the address
/// that was called, and reads the store of that context. A static call can
/// neither write nor log; any other call can do so exactly where the context
/// that made it is not static itself.
pub proof fn lemma_call_frame(outer: Context, inner: Context, address: Seq<u8>)
    requires
        framed(outer, inner, address) || static_framed(outer, inner, address),
    ensures
        inner.stack@.len() == outer.stack@.len() + 1,
        inner.address() == address,
        exited(inner.stack@) == outer.stack@,
        inner.storage@ == outer.storage@,
        static_framed(outer, inner, address) ==> inner.refusal() == Some(
            PrecompileError::StateMutabilityViolation,
        ),
        framed(outer, inner, address) ==> inner.refusal() == if outer.is_static() {
            Some(PrecompileError::StateMutabilityViolation)
        } else {
            None::<PrecompileError>
        },
{
    assert(entered(outer.stack@, address).drop_last() =~= outer.stack@);
}

} // verus!
