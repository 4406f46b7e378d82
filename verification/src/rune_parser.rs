use crate::artifact::{
    deciphered, view_of, Artifact, ArtifactView, Edict, Transaction, TransactionView,
};
use crate::balances::{
    add_balance, add_balances, add_positive_balances, balance_of, credit, credit_all,
    credit_positive, debit, get_balance, sub_balance,
};
use crate::cache::{CacheView, UpdaterCache};
use crate::ids::{OutPoint, ScriptPubKey};
use crate::model::{
    copy_vec, SpentInput, SpentInputView, TransactionStateChange, TransactionStateChangeView,
    TxOutEntry, TxOutEntryView,
};
use crate::rune::Rune;
use crate::rune_amount::RuneAmount;
use crate::rune_id::RuneId;
use crate::settings::Chain;
use crate::store::{StoreView, StoreWithLock};
use vstd::prelude::*;

verus! {

/// Why the effect of a transaction could not be worked out.
#[derive(Debug, PartialEq, Copy, Clone, Eq, Structural)]
pub enum RuneParserError {
    /// A balance would have left the range of 128 bits.
    Overflow,
}

/// The smallest name that may be etched at a height of a chain.
pub uninterp spec fn minimum_rune(chain: Chain, height: u32) -> u128;

/// The smallest name that may be etched at a height.
///
/// Trusted: calls `ordinals::Rune::minimum_at_height` for the network of
/// the chain, which computes the name from the network and the height
/// alone and does not fail.
#[verifier::external_body]
fn minimum_at_height(chain: Chain, height: u32) -> (r: u128)
    ensures
        r == minimum_rune(chain, height),
{
    let network = match chain {
        Chain::Mainnet => bitcoin::Network::Bitcoin,
        Chain::Testnet => bitcoin::Network::Testnet,
        Chain::Testnet4 => bitcoin::Network::Testnet4,
        Chain::Signet => bitcoin::Network::Signet,
        Chain::Regtest => bitcoin::Network::Regtest,
    };
    ordinals::Rune::minimum_at_height(network, ordinals::Height(height)).0
}

/// The first of the names that are kept for etchings without a name.
pub const RESERVED: u128 = 6402364363415443603228541259936211926;

/// The name given to an etching without a name in transaction `tx` of
/// block `block`.
pub open spec fn spec_reserved(block: u64, tx: u32) -> u128 {
    (RESERVED + (((block as u128) << 32) | (tx as u128))) as u128
}

pub fn reserved(block: u64, tx: u32) -> (r: Rune)
    ensures
        r.0 == spec_reserved(block, tx),
{
    let b: u128 = block as u128;
    let t: u128 = tx as u128;
    let offset: u128 = (b << 32) | t;
    assert(offset <= 0xffff_ffff_ffff_ffff_ffff_ffff) by (bit_vector)
        requires
            offset == (b << 32) | t,
            b <= 0xffff_ffff_ffff_ffff,
            t <= 0xffff_ffff,
    ;
    Rune(RESERVED + offset)
}

/// The indices of the first `n` outputs that can hold runes: those whose
/// script does not make them unspendable.
pub open spec fn destinations(scripts: Seq<Seq<u8>>, n: nat) -> Seq<usize>
    recommends
        n <= scripts.len(),
    decreases n,
{
    if n == 0 {
        Seq::empty()
    } else {
        let before = destinations(scripts, (n - 1) as nat);
        if ScriptPubKey::spec_is_op_return(scripts[n - 1]) {
            before
        } else {
            before.push((n - 1) as usize)
        }
    }
}

/// The balances that are still to be assigned, those assigned to each
/// output, and whether every sum fitted so far.
pub struct AllocationView {
    pub unallocated: Seq<RuneAmount>,
    pub allocated: Seq<Seq<RuneAmount>>,
    pub ok: bool,
}

pub open spec fn min_amount(a: u128, b: u128) -> u128 {
    if a <= b {
        a
    } else {
        b
    }
}

impl AllocationView {
    /// Moves an amount of a rune from the unassigned balances to an output.
    /// Nothing moves if the amount is zero.
    pub open spec fn allocate(self, id: RuneId, amount: u128, output: int) -> AllocationView {
        if amount > 0 && 0 <= output < self.allocated.len() {
            let (list, ok) = credit(self.allocated[output], id, amount);
            AllocationView {
                unallocated: debit(self.unallocated, id, amount),
                allocated: self.allocated.update(output, list),
                ok: self.ok && ok,
            }
        } else {
            self
        }
    }

    /// Gives each destination from `from` on its share of a balance: the
    /// first `remainder` destinations get one unit more than `share`.
    pub open spec fn spread_even(
        self,
        id: RuneId,
        share: u128,
        remainder: int,
        dest: Seq<usize>,
        from: nat,
    ) -> AllocationView
        decreases dest.len() - from,
    {
        if from >= dest.len() {
            self
        } else {
            self.allocate(
                id,
                if from < remainder {
                    (share + 1) as u128
                } else {
                    share
                },
                dest[from as int] as int,
            ).spread_even(id, share, remainder, dest, from + 1)
        }
    }

    /// Gives each destination from `from` on the amount, or what is left of
    /// the balance if that is less.
    pub open spec fn spread_fixed(self, id: RuneId, amount: u128, dest: Seq<usize>, from: nat) -> AllocationView
        decreases dest.len() - from,
    {
        if from >= dest.len() {
            self
        } else {
            let balance = balance_of(self.unallocated, id).unwrap_or(0);
            self.allocate(id, min_amount(amount, balance), dest[from as int] as int).spread_fixed(
                id,
                amount,
                dest,
                from + 1,
            )
        }
    }

    /// Carries out one edict. An edict for the rune `0:0` is for the rune
    /// that the transaction etches. An edict for a rune without unassigned
    /// balance does nothing. An edict for the output one past the last is
    /// for every destination: with amount zero the balance is divided
    /// among them, else each gets the amount while the balance lasts. An
    /// edict for one output gives it the amount, at most the balance, or
    /// with amount zero the whole balance.
    pub open spec fn edict(self, edict: Edict, etched: Option<RuneId>, dest: Seq<usize>) -> AllocationView {
        let n = self.allocated.len();
        let id = if edict.id == (RuneId { block: 0, tx: 0 }) {
            etched
        } else {
            Some(edict.id)
        };
        if id.is_none() || balance_of(self.unallocated, id.unwrap()).is_none() {
            self
        } else {
            let id = id.unwrap();
            let balance = balance_of(self.unallocated, id).unwrap();
            if edict.output == n {
                if dest.len() == 0 {
                    self
                } else if edict.amount == 0 {
                    self.spread_even(
                        id,
                        (balance / (dest.len() as u128)) as u128,
                        (balance % (dest.len() as u128)) as int,
                        dest,
                        0,
                    )
                } else {
                    self.spread_fixed(id, edict.amount, dest, 0)
                }
            } else if edict.output < n {
                self.allocate(
                    id,
                    if edict.amount == 0 {
                        balance
                    } else {
                        min_amount(edict.amount, balance)
                    },
                    edict.output as int,
                )
            } else {
                self
            }
        }
    }

    /// Carries out the edicts in turn.
    pub open spec fn edicts(self, edicts: Seq<Edict>, etched: Option<RuneId>, dest: Seq<usize>) -> AllocationView
        decreases edicts.len(),
    {
        if edicts.len() == 0 {
            self
        } else {
            self.edict(edicts[0], etched, dest).edicts(edicts.skip(1), etched, dest)
        }
    }
}

/// The output that receives what no edict assigned: the one the pointer
/// names, if it names one, else the first destination, if there is one.
pub open spec fn leftover_target(pointer: Option<u32>, dest: Seq<usize>, n: nat) -> Option<usize> {
    if pointer.is_some() && pointer.unwrap() < n {
        Some(pointer.unwrap() as usize)
    } else if dest.len() > 0 {
        Some(dest[0])
    } else {
        None
    }
}

/// The first `n` inputs that are known and unspent, with their balances;
/// the sum of these balances by rune; and whether every sum fitted.
pub open spec fn gather_inputs(cache: CacheView, db: StoreView, inputs: Seq<OutPoint>, n: nat) -> (
    Seq<SpentInputView>,
    Seq<RuneAmount>,
    bool,
)
    recommends
        n <= inputs.len(),
    decreases n,
{
    if n == 0 {
        (Seq::empty(), Seq::empty(), true)
    } else {
        let (ins, sum, ok) = gather_inputs(cache, db, inputs, (n - 1) as nat);
        let outpoint = inputs[n - 1];
        match cache.tx_out(db, outpoint) {
            Some(entry) => if entry.spent {
                (ins, sum, ok)
            } else {
                let (sum2, ok2) = credit_all(sum, entry.runes);
                (ins.push(SpentInputView { outpoint, runes: entry.runes }), sum2, ok && ok2)
            },
            None => (ins, sum, ok),
        }
    }
}

/// What the message mints: the amount that the terms of the rune give,
/// if the rune is known and can be minted at the height.
pub open spec fn mint_amount(cache: CacheView, db: StoreView, artifact: ArtifactView, height: u64) -> Option<
    RuneAmount,
> {
    match artifact.mint() {
        None => None,
        Some(id) => match cache.rune(db, id) {
            None => None,
            Some(entry) => match entry.spec_mintable(height) {
                Ok(amount) => Some(RuneAmount { rune_id: id, amount }),
                Err(_) => None,
            },
        },
    }
}

/// The name that the message asks to etch: nothing if it etches no rune,
/// `Some(None)` if it etches a rune without naming it.
pub open spec fn etching_name(artifact: ArtifactView) -> Option<Option<Rune>> {
    match artifact {
        ArtifactView::Runestone(stone) => match stone.etching {
            Some(etching) => Some(etching.rune),
            None => None,
        },
        ArtifactView::Cenotaph(c) => match c.etching {
            Some(rune) => Some(Some(rune)),
            None => None,
        },
    }
}

/// The rune that the message etches, with its identifier. A named
/// etching counts only if the name is not below the minimum, is not a
/// reserved one, is not taken, and the transaction commits to it. An
/// etching without a name gets a reserved name.
pub open spec fn etched_rune(
    cache: CacheView,
    db: StoreView,
    artifact: ArtifactView,
    height: u64,
    tx_index: u32,
    minimum: u128,
    commitment: bool,
) -> Option<(RuneId, Rune)> {
    match etching_name(artifact) {
        None => None,
        Some(Some(rune)) => if rune.0 < minimum || rune.0 >= RESERVED || cache.rune_id(
            db,
            rune,
        ).is_some() || !commitment {
            None
        } else {
            Some((RuneId { block: height, tx: tx_index }, rune))
        },
        Some(None) => Some(
            (RuneId { block: height, tx: tx_index }, Rune(spec_reserved(height, tx_index))),
        ),
    }
}

/// The first `n` outputs with their balances, what is burned, and whether
/// every sum fitted: an unspendable output keeps nothing, what was
/// assigned to it is burned.
pub open spec fn collect_outputs(
    allocated: Seq<Seq<RuneAmount>>,
    scripts: Seq<Seq<u8>>,
    values: Seq<u64>,
    burned: Seq<RuneAmount>,
    n: nat,
) -> (Seq<TxOutEntryView>, Seq<RuneAmount>, bool)
    recommends
        n <= allocated.len(),
        n <= scripts.len(),
        n <= values.len(),
    decreases n,
{
    if n == 0 {
        (Seq::empty(), burned, true)
    } else {
        let (outs, b, ok) = collect_outputs(allocated, scripts, values, burned, (n - 1) as nat);
        if ScriptPubKey::spec_is_op_return(scripts[n - 1]) {
            let (b2, ok2) = credit_positive(b, allocated[n - 1]);
            (
                outs.push(
                    TxOutEntryView { runes: Seq::empty(), value: values[n - 1], spent: false },
                ),
                b2,
                ok && ok2,
            )
        } else {
            (
                outs.push(
                    TxOutEntryView { runes: allocated[n - 1], value: values[n - 1], spent: false },
                ),
                b,
                ok,
            )
        }
    }
}

/// The balances after the message was carried out, before what is left is
/// assigned: a well-formed message adds the premine of the rune it etches
/// and carries out its edicts; any other leaves the balances as they are.
pub open spec fn carry_out(
    start: AllocationView,
    artifact: Option<ArtifactView>,
    etched: Option<(RuneId, Rune)>,
    dest: Seq<usize>,
) -> AllocationView {
    match artifact {
        Some(ArtifactView::Runestone(stone)) => {
            let etched_id = match etched {
                Some((id, _)) => Some(id),
                None => None,
            };
            let (sum, ok) = if etched.is_some() && stone.etching.is_some() {
                credit(
                    start.unallocated,
                    etched.unwrap().0,
                    stone.etching.unwrap().premine.unwrap_or(0),
                )
            } else {
                (start.unallocated, true)
            };
            (AllocationView { unallocated: sum, ok: start.ok && ok, ..start }).edicts(
                stone.edicts,
                etched_id,
                dest,
            )
        },
        _ => start,
    }
}

/// The balances of the outputs once what was left is assigned, what is
/// burned by then, and whether every sum fitted. A malformed message burns
/// everything. Else what is left goes to the target output, and is burned
/// if there is none.
pub open spec fn assign_leftovers(
    alloc: AllocationView,
    artifact: Option<ArtifactView>,
    dest: Seq<usize>,
) -> (Seq<Seq<RuneAmount>>, Seq<RuneAmount>, bool) {
    let n = alloc.allocated.len();
    let pointer = match artifact {
        Some(ArtifactView::Runestone(stone)) => stone.pointer,
        _ => None,
    };
    let cenotaph = artifact.is_some() && artifact.unwrap() is Cenotaph;
    let target = leftover_target(pointer, dest, n);
    if cenotaph || target.is_none() {
        let (burned, ok) = credit_positive(Seq::empty(), alloc.unallocated);
        (alloc.allocated, burned, alloc.ok && ok)
    } else {
        let v = target.unwrap() as int;
        let (list, ok) = credit_positive(alloc.allocated[v], alloc.unallocated);
        (alloc.allocated.update(v, list), Seq::empty(), alloc.ok && ok)
    }
}

/// The effect of a transaction on the rune state, given the message that
/// its outputs hold.
///
/// The runes that enter are the balances of the known, unspent outputs
/// that the transaction consumes, what it mints, and the premine of the
/// rune it etches. The edicts of a well-formed message assign them to
/// outputs; what is left goes to the output that the pointer names, else to
/// the first output that can hold runes, and is burned if there is none.
/// A malformed message burns everything. What is assigned to an
/// unspendable output is burned.
#[verifier::opaque]
pub open spec fn index_runes_spec(
    cache: CacheView,
    db: StoreView,
    height: u64,
    tx_index: u32,
    tx: TransactionView,
    artifact: Option<ArtifactView>,
    minimum: u128,
    commitment: bool,
) -> Result<TransactionStateChangeView, RuneParserError> {
    let n = tx.scripts.len();
    let (inputs, sum0, ok0) = gather_inputs(cache, db, tx.inputs, tx.inputs.len());
    let minted = match artifact {
        Some(a) => mint_amount(cache, db, a, height),
        None => None,
    };
    let (sum1, ok1) = match minted {
        Some(m) => credit(sum0, m.rune_id, m.amount),
        None => (sum0, true),
    };
    let etched = match artifact {
        Some(a) => etched_rune(cache, db, a, height, tx_index, minimum, commitment),
        None => None,
    };
    let dest = destinations(tx.scripts, n);
    let start = AllocationView {
        unallocated: sum1,
        allocated: Seq::new(n, |i: int| Seq::<RuneAmount>::empty()),
        ok: ok0 && ok1,
    };
    let alloc = carry_out(start, artifact, etched, dest);
    let (allocated, burned0, ok2) = assign_leftovers(alloc, artifact, dest);
    let (outputs, burned, ok3) = collect_outputs(allocated, tx.scripts, tx.values, burned0, n);
    if ok2 && ok3 {
        Ok(TransactionStateChangeView { inputs, outputs, etched, minted, burned })
    } else {
        Err(RuneParserError::Overflow)
    }
}

/// The views of the lists.
pub open spec fn lists(v: Seq<Vec<RuneAmount>>) -> Seq<Seq<RuneAmount>> {
    Seq::new(v.len(), |i: int| v[i]@)
}

/// The balances to assign and those assigned, while the effect of a
/// transaction is worked out.
pub struct Allocation {
    pub unallocated: Vec<RuneAmount>,
    pub allocated: Vec<Vec<RuneAmount>>,
    pub ok: bool,
}

impl View for Allocation {
    type V = AllocationView;

    open spec fn view(&self) -> AllocationView {
        AllocationView {
            unallocated: self.unallocated@,
            allocated: lists(self.allocated@),
            ok: self.ok,
        }
    }
}

impl Allocation {
    fn allocate(&mut self, id: RuneId, amount: u128, output: usize)
        ensures
            final(self)@ == old(self)@.allocate(id, amount, output as int),
    {
        if amount > 0 && output < self.allocated.len() {
            let mut list = copy_vec(&self.allocated[output]);
            let ok = add_balance(&mut list, id, amount);
            sub_balance(&mut self.unallocated, id, amount);
            let ghost l = list@;
            self.allocated.set(output, list);
            self.ok = self.ok && ok;
            proof {
                assert(lists(self.allocated@) =~= lists(old(self).allocated@).update(
                    output as int,
                    l,
                ));
            }
        }
    }

    fn spread_even(&mut self, id: RuneId, share: u128, remainder: usize, dest: &Vec<usize>)
        requires
            remainder > 0 ==> share < u128::MAX,
        ensures
            final(self)@ == old(self)@.spread_even(id, share, remainder as int, dest@, 0),
    {
        let mut i: usize = 0;
        while i < dest.len()
            invariant
                i <= dest.len(),
                remainder > 0 ==> share < u128::MAX,
                old(self)@.spread_even(id, share, remainder as int, dest@, 0) == self@.spread_even(
                    id,
                    share,
                    remainder as int,
                    dest@,
                    i as nat,
                ),
            decreases dest.len() - i,
        {
            let amount = if i < remainder {
                share + 1
            } else {
                share
            };
            self.allocate(id, amount, dest[i]);
            i = i + 1;
        }
    }

    fn spread_fixed(&mut self, id: RuneId, amount: u128, dest: &Vec<usize>)
        ensures
            final(self)@ == old(self)@.spread_fixed(id, amount, dest@, 0),
    {
        let mut i: usize = 0;
        while i < dest.len()
            invariant
                i <= dest.len(),
                old(self)@.spread_fixed(id, amount, dest@, 0) == self@.spread_fixed(
                    id,
                    amount,
                    dest@,
                    i as nat,
                ),
            decreases dest.len() - i,
        {
            let balance = match get_balance(&self.unallocated, &id) {
                Some(b) => b,
                None => 0,
            };
            let part = if amount <= balance {
                amount
            } else {
                balance
            };
            self.allocate(id, part, dest[i]);
            i = i + 1;
        }
    }

    fn edict(&mut self, edict: &Edict, etched: Option<RuneId>, dest: &Vec<usize>)
        ensures
            final(self)@ == old(self)@.edict(*edict, etched, dest@),
    {
        let id = if edict.id.block == 0 && edict.id.tx == 0 {
            match etched {
                Some(id) => id,
                None => {
                    return ;
                },
            }
        } else {
            edict.id
        };
        let balance = match get_balance(&self.unallocated, &id) {
            Some(b) => b,
            None => {
                return ;
            },
        };
        let n = self.allocated.len();
        let output = edict.output as usize;
        if output == n {
            if dest.len() == 0 {
                return ;
            }
            if edict.amount == 0 {
                let count = dest.len() as u128;
                let share = balance / count;
                let remainder = (balance % count) as usize;
                assert(remainder > 0 ==> share < u128::MAX) by (nonlinear_arith)
                    requires
                        count > 0,
                        share == balance / count,
                        remainder == balance % count,
                        balance <= u128::MAX,
                ;
                self.spread_even(id, share, remainder, dest);
            } else {
                self.spread_fixed(id, edict.amount, dest);
            }
        } else if output < n {
            let amount = if edict.amount == 0 {
                balance
            } else if edict.amount <= balance {
                edict.amount
            } else {
                balance
            };
            self.allocate(id, amount, output);
        }
    }

    fn edicts(&mut self, edicts: &Vec<Edict>, etched: Option<RuneId>, dest: &Vec<usize>)
        ensures
            final(self)@ == old(self)@.edicts(edicts@, etched, dest@),
    {
        let mut i: usize = 0;
        proof {
            assert(edicts@.skip(0) =~= edicts@);
        }
        while i < edicts.len()
            invariant
                i <= edicts.len(),
                old(self)@.edicts(edicts@, etched, dest@) == self@.edicts(
                    edicts@.skip(i as int),
                    etched,
                    dest@,
                ),
            decreases edicts.len() - i,
        {
            proof {
                assert(edicts@.skip(i as int)[0] == edicts@[i as int]);
                assert(edicts@.skip(i as int).skip(1) =~= edicts@.skip(i + 1));
            }
            self.edict(&edicts[i], etched, dest);
            i = i + 1;
        }
    }
}

/// Works out what transactions do to the rune state of a chain at a
/// height.
pub struct RuneParser {
    pub chain: Chain,
    pub height: u32,
    pub mempool: bool,
}

impl RuneParser {
    pub fn new(chain: Chain, height: u32, mempool: bool) -> (r: Self)
        ensures
            r.chain == chain,
            r.height == height,
            r.mempool == mempool,
    {
        RuneParser { chain, height, mempool }
    }

    /// The effect of a transaction on the rune state. `commitment` tells
    /// whether the transaction commits to the name it etches, with the
    /// commitment confirmed deeply enough. The number of outputs must fit
    /// the 32 bits in which the protocol counts them.
    pub fn index_runes(
        &self,
        cache: &UpdaterCache,
        db: &StoreWithLock,
        tx_index: u32,
        tx: &Transaction,
        commitment: bool,
    ) -> (r: Result<TransactionStateChange, RuneParserError>)
        requires
            tx.outputs@.len() <= u32::MAX,
        ensures
            match index_runes_spec(
                cache@,
                db@,
                self.height as u64,
                tx_index,
                tx@,
                deciphered(tx@.scripts),
                minimum_rune(self.chain, self.height),
                commitment,
            ) {
                Ok(change) => r.is_ok() && r.unwrap()@ == change,
                Err(e) => r.is_err() && r.unwrap_err() == e,
            },
            r.is_ok() ==> r.unwrap().outputs@.len() == tx.outputs@.len(),
    {
        let artifact = tx.decipher();
        let minimum = minimum_at_height(self.chain, self.height);
        index_runes_with(cache, db, self.height as u64, tx_index, tx, &artifact, minimum, commitment)
    }
}

fn gather(cache: &UpdaterCache, db: &StoreWithLock, tx: &Transaction) -> (r: (
    Vec<SpentInput>,
    Vec<RuneAmount>,
    bool,
))
    ensures
        ({
            let (ins, sum, ok) = gather_inputs(cache@, db@, tx@.inputs, tx@.inputs.len());
            &&& r.0@.len() == ins.len()
            &&& forall|j: int| 0 <= j < ins.len() ==> (#[trigger] r.0@[j])@ == ins[j]
            &&& r.1@ == sum
            &&& r.2 == ok
        }),
{
    let mut inputs: Vec<SpentInput> = Vec::new();
    let mut sum: Vec<RuneAmount> = Vec::new();
    let mut ok = true;
    let mut i: usize = 0;
    while i < tx.inputs.len()
        invariant
            i <= tx.inputs.len(),
            inputs@.len() == gather_inputs(cache@, db@, tx@.inputs, i as nat).0.len(),
            forall|j: int|
                0 <= j < inputs@.len() ==> (#[trigger] inputs@[j])@ == gather_inputs(
                    cache@,
                    db@,
                    tx@.inputs,
                    i as nat,
                ).0[j],
            sum@ == gather_inputs(cache@, db@, tx@.inputs, i as nat).1,
            ok == gather_inputs(cache@, db@, tx@.inputs, i as nat).2,
        decreases tx.inputs.len() - i,
    {
        let outpoint = tx.inputs[i];
        match cache.get_tx_out(db, &outpoint) {
            Ok(entry) => {
                if !entry.spent {
                    let step = add_balances(&mut sum, &entry.runes);
                    ok = ok && step;
                    inputs.push(SpentInput { outpoint, runes: entry.runes });
                }
            },
            Err(_) => {},
        }
        i = i + 1;
    }
    (inputs, sum, ok)
}

fn mint(cache: &UpdaterCache, db: &StoreWithLock, artifact: &Artifact, height: u64) -> (r: Option<
    RuneAmount,
>)
    ensures
        r == mint_amount(cache@, db@, artifact@, height),
{
    match artifact.mint() {
        None => None,
        Some(id) => match cache.get_rune(db, &id) {
            Err(_) => None,
            Ok(entry) => match entry.mintable(height) {
                Ok(amount) => Some(RuneAmount { rune_id: id, amount }),
                Err(_) => None,
            },
        },
    }
}

fn etched(
    cache: &UpdaterCache,
    db: &StoreWithLock,
    artifact: &Artifact,
    height: u64,
    tx_index: u32,
    minimum: u128,
    commitment: bool,
) -> (r: Option<(RuneId, Rune)>)
    ensures
        r == etched_rune(cache@, db@, artifact@, height, tx_index, minimum, commitment),
{
    let name: Option<Rune> = match artifact {
        Artifact::Runestone(stone) => match stone.etching {
            Some(etching) => etching.rune,
            None => {
                return None;
            },
        },
        Artifact::Cenotaph(c) => match c.etching {
            Some(rune) => Some(rune),
            None => {
                return None;
            },
        },
    };
    let rune = match name {
        Some(rune) => {
            if rune.0 < minimum || rune.0 >= RESERVED || cache.get_rune_id(db, &rune).is_ok()
                || !commitment {
                return None;
            }
            rune
        },
        None => reserved(height, tx_index),
    };
    Some((RuneId { block: height, tx: tx_index }, rune))
}

fn find_destinations(tx: &Transaction) -> (r: Vec<usize>)
    ensures
        r@ == destinations(tx@.scripts, tx@.scripts.len()),
{
    let mut out: Vec<usize> = Vec::new();
    let mut i: usize = 0;
    while i < tx.outputs.len()
        invariant
            i <= tx.outputs.len(),
            out@ == destinations(tx@.scripts, i as nat),
        decreases tx.outputs.len() - i,
    {
        if !tx.outputs[i].script_pubkey.is_op_return() {
            out.push(i);
        }
        i = i + 1;
    }
    out
}

fn empty_lists(n: usize) -> (r: Vec<Vec<RuneAmount>>)
    ensures
        lists(r@) == Seq::new(n as nat, |i: int| Seq::<RuneAmount>::empty()),
{
    let mut out: Vec<Vec<RuneAmount>> = Vec::new();
    let mut i: usize = 0;
    while i < n
        invariant
            i <= n,
            out@.len() == i,
            forall|j: int| 0 <= j < i ==> (#[trigger] out@[j])@ == Seq::<RuneAmount>::empty(),
        decreases n - i,
    {
        out.push(Vec::new());
        i = i + 1;
    }
    assert(lists(out@) =~= Seq::new(n as nat, |i: int| Seq::<RuneAmount>::empty()));
    out
}

fn collect(allocated: &Vec<Vec<RuneAmount>>, tx: &Transaction, burned: Vec<RuneAmount>) -> (r: (
    Vec<TxOutEntry>,
    Vec<RuneAmount>,
    bool,
))
    requires
        allocated@.len() == tx.outputs@.len(),
    ensures
        ({
            let (outs, b, ok) = collect_outputs(
                lists(allocated@),
                tx@.scripts,
                tx@.values,
                burned@,
                tx@.scripts.len(),
            );
            &&& r.0@.len() == outs.len()
            &&& forall|j: int| 0 <= j < outs.len() ==> (#[trigger] r.0@[j])@ == outs[j]
            &&& r.1@ == b
            &&& r.2 == ok
        }),
        r.0@.len() == tx.outputs@.len(),
{
    let ghost start = burned@;
    let mut burned = burned;
    let mut outputs: Vec<TxOutEntry> = Vec::new();
    let mut ok = true;
    let mut i: usize = 0;
    while i < tx.outputs.len()
        invariant
            i <= tx.outputs.len(),
            allocated@.len() == tx.outputs@.len(),
            outputs@.len() == i,
            forall|j: int|
                0 <= j < i ==> (#[trigger] outputs@[j])@ == collect_outputs(
                    lists(allocated@),
                    tx@.scripts,
                    tx@.values,
                    start,
                    i as nat,
                ).0[j],
            collect_outputs(lists(allocated@), tx@.scripts, tx@.values, start, i as nat).0.len() == i,
            burned@ == collect_outputs(lists(allocated@), tx@.scripts, tx@.values, start, i as nat).1,
            ok == collect_outputs(lists(allocated@), tx@.scripts, tx@.values, start, i as nat).2,
        decreases tx.outputs.len() - i,
    {
        let value = tx.outputs[i].value;
        proof {
            assert(lists(allocated@)[i as int] == allocated@[i as int]@);
        }
        if tx.outputs[i].script_pubkey.is_op_return() {
            let step = add_positive_balances(&mut burned, &allocated[i]);
            ok = ok && step;
            outputs.push(TxOutEntry { runes: Vec::new(), value, spent: false });
        } else {
            outputs.push(TxOutEntry { runes: copy_vec(&allocated[i]), value, spent: false });
        }
        i = i + 1;
    }
    (outputs, burned, ok)
}

/// The effect of a transaction on the rune state, given the message that
/// its outputs hold and the smallest name that may be etched.
#[verifier::rlimit(60)]
pub fn index_runes_with(
    cache: &UpdaterCache,
    db: &StoreWithLock,
    height: u64,
    tx_index: u32,
    tx: &Transaction,
    artifact: &Option<Artifact>,
    minimum: u128,
    commitment: bool,
) -> (r: Result<TransactionStateChange, RuneParserError>)
    ensures
        match index_runes_spec(
            cache@,
            db@,
            height,
            tx_index,
            tx@,
            view_of(*artifact),
            minimum,
            commitment,
        ) {
            Ok(change) => r.is_ok() && r.unwrap()@ == change,
            Err(e) => r.is_err() && r.unwrap_err() == e,
        },
        r.is_ok() ==> r.unwrap().outputs@.len() == tx.outputs@.len(),
{
    reveal(index_runes_spec);
    let n = tx.outputs.len();
    let (inputs, mut sum, ok0) = gather(cache, db, tx);
    let minted = match artifact {
        Some(a) => mint(cache, db, a, height),
        None => None,
    };
    let ok1 = match minted {
        Some(m) => add_balance(&mut sum, m.rune_id, m.amount),
        None => true,
    };
    let etched = match artifact {
        Some(a) => etched(cache, db, a, height, tx_index, minimum, commitment),
        None => None,
    };
    let dest = find_destinations(tx);
    let mut alloc = Allocation { unallocated: sum, allocated: empty_lists(n), ok: ok0 && ok1 };
    let ghost start = alloc@;
    let ghost view = view_of(*artifact);
    let mut pointer: Option<u32> = None;
    let mut cenotaph = false;
    match artifact {
        Some(Artifact::Runestone(stone)) => {
            pointer = stone.pointer;
            let etched_id = match etched {
                Some((id, _)) => Some(id),
                None => None,
            };
            match (etched, stone.etching) {
                (Some((id, _)), Some(etching)) => {
                    let premine = match etching.premine {
                        Some(p) => p,
                        None => 0,
                    };
                    let ok = add_balance(&mut alloc.unallocated, id, premine);
                    alloc.ok = alloc.ok && ok;
                },
                _ => {},
            }
            alloc.edicts(&stone.edicts, etched_id, &dest);
        },
        Some(Artifact::Cenotaph(_)) => {
            cenotaph = true;
        },
        None => {},
    }
    assert(alloc@ == carry_out(start, view, etched, dest@));
    assert(alloc@.allocated.len() == n) by {
        lemma_carry_out_keeps_outputs(start, view, etched, dest@);
    }
    let ghost carried = alloc@;
    let target: Option<usize> = match pointer {
        Some(p) => if (p as usize) < n {
            Some(p as usize)
        } else if dest.len() > 0 {
            Some(dest[0])
        } else {
            None
        },
        None => if dest.len() > 0 {
            Some(dest[0])
        } else {
            None
        },
    };
    proof {
        lemma_destinations_in_range(tx@.scripts, n as nat);
    }
    let mut burned: Vec<RuneAmount> = Vec::new();
    let ok2 = if cenotaph || target.is_none() {
        add_positive_balances(&mut burned, &alloc.unallocated)
    } else {
        let v = target.unwrap();
        let mut list = copy_vec(&alloc.allocated[v]);
        let ok = add_positive_balances(&mut list, &alloc.unallocated);
        let ghost l = list@;
        alloc.allocated.set(v, list);
        proof {
            assert(lists(alloc.allocated@) =~= carried.allocated.update(v as int, l));
        }
        ok
    };
    let ok2 = alloc.ok && ok2;
    assert((lists(alloc.allocated@), burned@, ok2) == assign_leftovers(carried, view, dest@));
    let (outputs, burned, ok3) = collect(&alloc.allocated, tx, burned);
    if ok2 && ok3 {
        let change = TransactionStateChange { inputs, outputs, etched, minted, burned };
        proof {
            let spec = index_runes_spec(cache@, db@, height, tx_index, tx@, view, minimum, commitment);
            assert(change@.inputs =~= spec.unwrap().inputs);
            assert(change@.outputs =~= spec.unwrap().outputs);
        }
        Ok(change)
    } else {
        Err(RuneParserError::Overflow)
    }
}

/// Every destination is the index of an output.
pub proof fn lemma_destinations_in_range(scripts: Seq<Seq<u8>>, n: nat)
    requires
        n <= scripts.len(),
        n <= usize::MAX,
    ensures
        forall|i: int|
            0 <= i < destinations(scripts, n).len() ==> (#[trigger] destinations(scripts, n)[i]) < n,
    decreases n,
{
    if n > 0 {
        lemma_destinations_in_range(scripts, (n - 1) as nat);
        let before = destinations(scripts, (n - 1) as nat);
        let now = destinations(scripts, n);
        assert forall|i: int| 0 <= i < now.len() implies (#[trigger] now[i]) < n by {
            if i < before.len() {
                assert(now[i] == before[i]);
            }
        }
    }
}

pub proof fn lemma_spread_even_keeps_outputs(
    a: AllocationView,
    id: RuneId,
    share: u128,
    remainder: int,
    dest: Seq<usize>,
    from: nat,
)
    ensures
        a.spread_even(id, share, remainder, dest, from).allocated.len() == a.allocated.len(),
    decreases dest.len() - from,
{
    if from < dest.len() {
        let amount = if from < remainder {
            (share + 1) as u128
        } else {
            share
        };
        lemma_spread_even_keeps_outputs(
            a.allocate(id, amount, dest[from as int] as int),
            id,
            share,
            remainder,
            dest,
            from + 1,
        );
    }
}

pub proof fn lemma_spread_fixed_keeps_outputs(
    a: AllocationView,
    id: RuneId,
    amount: u128,
    dest: Seq<usize>,
    from: nat,
)
    ensures
        a.spread_fixed(id, amount, dest, from).allocated.len() == a.allocated.len(),
    decreases dest.len() - from,
{
    if from < dest.len() {
        let balance = balance_of(a.unallocated, id).unwrap_or(0);
        lemma_spread_fixed_keeps_outputs(
            a.allocate(id, min_amount(amount, balance), dest[from as int] as int),
            id,
            amount,
            dest,
            from + 1,
        );
    }
}

pub proof fn lemma_edict_keeps_outputs(
    a: AllocationView,
    edict: Edict,
    etched: Option<RuneId>,
    dest: Seq<usize>,
)
    ensures
        a.edict(edict, etched, dest).allocated.len() == a.allocated.len(),
{
    let id = if edict.id == (RuneId { block: 0, tx: 0 }) {
        etched
    } else {
        Some(edict.id)
    };
    if id.is_some() && balance_of(a.unallocated, id.unwrap()).is_some() {
        let balance = balance_of(a.unallocated, id.unwrap()).unwrap();
        lemma_spread_even_keeps_outputs(
            a,
            id.unwrap(),
            (balance / (dest.len() as u128)) as u128,
            (balance % (dest.len() as u128)) as int,
            dest,
            0,
        );
        lemma_spread_fixed_keeps_outputs(a, id.unwrap(), edict.amount, dest, 0);
    }
}

pub proof fn lemma_edicts_keep_outputs(
    a: AllocationView,
    edicts: Seq<Edict>,
    etched: Option<RuneId>,
    dest: Seq<usize>,
)
    ensures
        a.edicts(edicts, etched, dest).allocated.len() == a.allocated.len(),
    decreases edicts.len(),
{
    if edicts.len() > 0 {
        lemma_edict_keeps_outputs(a, edicts[0], etched, dest);
        lemma_edicts_keep_outputs(a.edict(edicts[0], etched, dest), edicts.skip(1), etched, dest);
    }
}

pub proof fn lemma_carry_out_keeps_outputs(
    start: AllocationView,
    artifact: Option<ArtifactView>,
    etched: Option<(RuneId, Rune)>,
    dest: Seq<usize>,
)
    ensures
        carry_out(start, artifact, etched, dest).allocated.len() == start.allocated.len(),
{
    match artifact {
        Some(ArtifactView::Runestone(stone)) => {
            let etched_id = match etched {
                Some((id, _)) => Some(id),
                None => None,
            };
            let (sum, ok) = if etched.is_some() && stone.etching.is_some() {
                credit(
                    start.unallocated,
                    etched.unwrap().0,
                    stone.etching.unwrap().premine.unwrap_or(0),
                )
            } else {
                (start.unallocated, true)
            };
            lemma_edicts_keep_outputs(
                AllocationView { unallocated: sum, ok: start.ok && ok, ..start },
                stone.edicts,
                etched_id,
                dest,
            );
        },
        _ => {},
    }
}

/// The same transaction over the same state has the same effect.
pub proof fn lemma_index_runes_is_a_function(
    cache1: CacheView,
    db1: StoreView,
    cache2: CacheView,
    db2: StoreView,
    height: u64,
    tx_index: u32,
    tx: TransactionView,
    minimum: u128,
    commitment: bool,
)
    requires
        cache1 == cache2,
        db1 == db2,
    ensures
        index_runes_spec(
            cache1,
            db1,
            height,
            tx_index,
            tx,
            deciphered(tx.scripts),
            minimum,
            commitment,
        ) == index_runes_spec(
            cache2,
            db2,
            height,
            tx_index,
            tx,
            deciphered(tx.scripts),
            minimum,
            commitment,
        ),
{
}

} // verus!
