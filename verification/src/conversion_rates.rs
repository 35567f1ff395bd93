//! The exchange-rate table and the conversion decision logic.
//!
//! A table holds a base currency and, for each known currency code, the
//! rate expressing how many of its units one unit of the base is worth.
//! Rates and sums are IEEE-754 double-precision values carried as their
//! 64-bit patterns (`f64::to_bits` form); the table decides which currencies
//! take part, which formula applies and which error is reported, and hands
//! the operands of the floating-point formula back to the caller.

use vstd::prelude::*;
use vstd::pervasive::VecAdditionalExecFns;
use vstd::string::StringExecFns;

verus! {

/// Bit pattern of the double-precision value 1.0, the rate of the base
/// currency against itself.
pub const RATE_ONE_BITS: u64 = 0x3FF0_0000_0000_0000;

/// A double-precision bit pattern encodes zero exactly when everything but
/// the sign bit is clear.
pub open spec fn is_zero_rate(bits: u64) -> bool {
    bits == 0u64 || bits == 0x8000_0000_0000_0000u64
}

/// True when `bits` encodes a double-precision zero.
pub fn rate_is_zero(bits: u64) -> (r: bool)
    ensures
        r == is_zero_rate(bits),
{
    bits == 0u64 || bits == 0x8000_0000_0000_0000u64
}

/// Relies on `str`'s `PartialEq`: two string slices compare equal exactly
/// when they hold the same bytes, hence (UTF-8 being an injective encoding)
/// the same sequence of characters.
#[verifier::external_body]
fn str_eq(a: &str, b: &str) -> (r: bool)
    ensures
        r == (a@ == b@),
{
    a == b
}

/// The mapping that a sequence of `(code, rate)` entries denotes: entries
/// are taken in order, a later entry for a code replacing an earlier one.
pub open spec fn map_of(entries: Seq<(String, u64)>) -> Map<Seq<char>, u64>
    decreases entries.len(),
{
    if entries.len() == 0 {
        Map::empty()
    } else {
        map_of(entries.drop_last()).insert(entries.last().0@, entries.last().1)
    }
}

/// A code is in the mapping exactly when some entry carries it.
pub proof fn lemma_map_of_contains(entries: Seq<(String, u64)>, code: Seq<char>)
    ensures
        map_of(entries).contains_key(code) <==> exists|i: int|
            0 <= i < entries.len() && entries[i].0@ == code,
    decreases entries.len(),
{
    if entries.len() > 0 {
        lemma_map_of_contains(entries.drop_last(), code);
        if entries.last().0@ == code {
        } else if map_of(entries).contains_key(code) {
            let i = choose|i: int|
                0 <= i < entries.drop_last().len() && entries.drop_last()[i].0@ == code;
            assert(entries[i].0@ == code);
        } else {
            assert forall|i: int| 0 <= i < entries.len() implies entries[i].0@ != code by {
                if i < entries.len() - 1 {
                    assert(entries.drop_last()[i].0@ == entries[i].0@);
                }
            }
        }
    }
}

/// No two entries carry the same code.
pub open spec fn unique_codes(entries: Seq<(String, u64)>) -> bool {
    forall|i: int, j: int|
        0 <= i < j < entries.len() ==> entries[i].0@ != entries[j].0@
}

/// Under unique codes, the mapping sends each entry's code to that entry's
/// rate.
pub proof fn lemma_map_of_entry(entries: Seq<(String, u64)>, i: int)
    requires
        unique_codes(entries),
        0 <= i < entries.len(),
    ensures
        map_of(entries).contains_key(entries[i].0@),
        map_of(entries)[entries[i].0@] == entries[i].1,
    decreases entries.len(),
{
    lemma_map_of_contains(entries, entries[i].0@);
    if i < entries.len() - 1 {
        assert(unique_codes(entries.drop_last())) by {
            assert forall|p: int, q: int|
                0 <= p < q < entries.drop_last().len() implies entries.drop_last()[p].0@
                != entries.drop_last()[q].0@ by {
                assert(entries[p].0@ != entries[q].0@);
            }
        }
        assert(entries.drop_last()[i].0@ == entries[i].0@);
        lemma_map_of_entry(entries.drop_last(), i);
        assert(entries.last().0@ != entries[i].0@);
    }
}

/// Dropping the last entry keeps the remaining codes unique.
proof fn lemma_unique_drop_last(entries: Seq<(String, u64)>)
    requires
        unique_codes(entries),
        entries.len() > 0,
    ensures
        unique_codes(entries.drop_last()),
{
    assert forall|p: int, q: int|
        0 <= p < q < entries.drop_last().len() implies entries.drop_last()[p].0@
        != entries.drop_last()[q].0@ by {
        assert(entries[p].0@ != entries[q].0@);
    }
}

/// Replacing the entry that carries a code updates the denoted mapping at
/// that code.
proof fn lemma_map_of_update(entries: Seq<(String, u64)>, i: int, e: (String, u64))
    requires
        unique_codes(entries),
        0 <= i < entries.len(),
        entries[i].0@ == e.0@,
    ensures
        map_of(entries.update(i, e)) == map_of(entries).insert(e.0@, e.1),
    decreases entries.len(),
{
    lemma_unique_drop_last(entries);
    if i == entries.len() - 1 {
        assert(entries.update(i, e).drop_last() =~= entries.drop_last());
        assert(map_of(entries.drop_last()).insert(entries[i].0@, entries[i].1).insert(e.0@, e.1)
            =~= map_of(entries.drop_last()).insert(e.0@, e.1));
    } else {
        assert(entries.update(i, e).drop_last() =~= entries.drop_last().update(i, e));
        lemma_map_of_update(entries.drop_last(), i, e);
        let last = entries.last();
        assert(last.0@ != e.0@);
        assert(map_of(entries.drop_last()).insert(e.0@, e.1).insert(last.0@, last.1)
            =~= map_of(entries.drop_last()).insert(last.0@, last.1).insert(e.0@, e.1));
    }
}

/// A request to convert `sum` (a double-precision bit pattern) from one
/// currency to another.
pub struct ConversionRequest {
    pub from: String,
    pub to: String,
    pub sum: u64,
}

/// A successful conversion decision: which floating-point formula to apply
/// and its operands, all as double-precision bit patterns. The table itself
/// never evaluates the formula; the caller does, at the edge of the program.
#[derive(Clone, Copy, Debug, PartialEq, Eq, Structural)]
pub enum Conversion {
    /// Source and target are the same currency: the sum comes back as it is.
    Unchanged { sum: u64 },
    /// Source is the base currency: the result is `sum * rate_to`.
    FromBase { sum: u64, rate_to: u64 },
    /// Target is the base currency: the result is `sum / rate_from`.
    ToBase { sum: u64, rate_from: u64 },
    /// Neither side is the base: the result is `(sum / rate_from) * rate_to`,
    /// the sum converted to the base and then out of it, in exactly that
    /// order of operations.
    CrossRate { sum: u64, rate_from: u64, rate_to: u64 },
}

/// Why a conversion was refused.
#[derive(Debug, PartialEq, Eq)]
pub enum ConversionError {
    /// The named code is neither the base currency nor a stored one.
    UnknownCurrency(String),
    /// The table holds no rates at all.
    EmptyRateTable,
    /// The named currency's stored rate is zero, so converting through it
    /// would divide by zero.
    InvalidRate(String),
}

impl ConversionError {
    /// The user-facing message of this error, as the service reports it in
    /// its JSON error body.
    pub fn message(&self) -> (m: String)
        ensures
            match self {
                ConversionError::UnknownCurrency(c) => m@ == "Wrong currency provided "@ + c@,
                ConversionError::EmptyRateTable => m@ == "Wrong currency provided"@,
                ConversionError::InvalidRate(c) => m@ == "Invalid rate stored for "@ + c@,
            },
    {
        match self {
            ConversionError::UnknownCurrency(c) => "Wrong currency provided ".to_owned().concat(
                c.as_str(),
            ),
            ConversionError::EmptyRateTable => "Wrong currency provided".to_owned(),
            ConversionError::InvalidRate(c) => "Invalid rate stored for ".to_owned().concat(
                c.as_str(),
            ),
        }
    }
}

/// A successful response body: the converted sum as a double-precision bit
/// pattern.
pub struct SuccessfulResponse {
    pub status: bool,
    pub sum: u64,
}

impl SuccessfulResponse {
    /// Wrap a converted sum in a success body.
    pub fn construct(sum: u64) -> (r: SuccessfulResponse)
        ensures
            r.status == true,
            r.sum == sum,
    {
        SuccessfulResponse { status: true, sum }
    }
}

/// An error response body: the message explaining the failure.
pub struct ErrorResponse {
    pub status: bool,
    pub error: String,
}

impl ErrorResponse {
    /// Wrap an error message in a failure body.
    pub fn construct(error: &str) -> (r: ErrorResponse)
        ensures
            r.status == false,
            r.error@ == error@,
    {
        ErrorResponse { status: false, error: error.to_owned() }
    }
}

/// The response listing every known currency code.
pub struct CurrenciesResponse {
    pub status: bool,
    pub data: Vec<String>,
}

impl CurrenciesResponse {
    /// Wrap a list of currency codes in a success body.
    pub fn construct(data: Vec<String>) -> (r: CurrenciesResponse)
        ensures
            r.status == true,
            r.data == data,
    {
        CurrenciesResponse { status: true, data }
    }
}

/// The outcome that the conversion rules prescribe for given inputs, with
/// currency codes as character sequences. `ExchangeRates::spec_convert`
/// computes it; `plan_matches` says what it means of an executable result.
pub enum ConvPlan {
    Unknown(Seq<char>),
    Empty,
    BadRate(Seq<char>),
    Keep(u64),
    Mul(u64, u64),
    Div(u64, u64),
    Cross(u64, u64, u64),
}

/// How an executable conversion result realizes a prescribed outcome.
pub open spec fn plan_matches(r: Result<Conversion, ConversionError>, p: ConvPlan) -> bool {
    match p {
        ConvPlan::Unknown(c) => r matches Err(ConversionError::UnknownCurrency(s)) && s@ == c,
        ConvPlan::Empty => r matches Err(ConversionError::EmptyRateTable),
        ConvPlan::BadRate(c) => r matches Err(ConversionError::InvalidRate(s)) && s@ == c,
        ConvPlan::Keep(sum) => r matches Ok(Conversion::Unchanged { sum: s }) && s == sum,
        ConvPlan::Mul(sum, rate) => r matches Ok(Conversion::FromBase { sum: s, rate_to })
            && s == sum && rate_to == rate,
        ConvPlan::Div(sum, rate) => r matches Ok(Conversion::ToBase { sum: s, rate_from })
            && s == sum && rate_from == rate,
        ConvPlan::Cross(sum, rf, rt) => r matches Ok(
            Conversion::CrossRate { sum: s, rate_from, rate_to },
        ) && s == sum && rate_from == rf && rate_to == rt,
    }
}

/// The exchange-rate table: one base currency and the stored rates, keyed
/// by currency code. Entries with duplicate codes never arise: every
/// constructor and update keeps the codes unique, which `wf` records.
pub struct ExchangeRates {
    pub base: String,
    pub rates: Vec<(String, u64)>,
}

impl ExchangeRates {
    /// The base currency code, as a sequence of characters.
    pub open spec fn spec_base(self) -> Seq<char> {
        self.base@
    }

    /// The stored entries, in storage order.
    pub open spec fn spec_entries(self) -> Seq<(String, u64)> {
        self.rates@
    }

    /// The mapping from currency code to stored rate that the table denotes.
    pub open spec fn spec_rates(self) -> Map<Seq<char>, u64> {
        map_of(self.rates@)
    }

    /// Well-formed tables carry at most one entry per currency code.
    pub open spec fn wf(self) -> bool {
        unique_codes(self.rates@)
    }

    /// A currency can take part in a conversion when it is the base or has
    /// a stored rate.
    pub open spec fn spec_exists_currency(self, code: Seq<char>) -> bool {
        code == self.spec_base() || self.spec_rates().contains_key(code)
    }

    /// The rate of a currency: its stored rate, or 1.0 for a base currency
    /// that the provider's payload left out.
    pub open spec fn spec_rate_of(self, code: Seq<char>) -> Option<u64> {
        if self.spec_rates().contains_key(code) {
            Some(self.spec_rates()[code])
        } else if code == self.spec_base() {
            Some(RATE_ONE_BITS)
        } else {
            None
        }
    }

    /// The outcome the conversion rules prescribe for a request: existence
    /// of both currencies is checked first (source before target), then
    /// that the table is not empty, then the no-op equality short circuit,
    /// and only then the arithmetic path, guarding the divisions against a
    /// stored rate of zero.
    pub open spec fn spec_convert(self, from: Seq<char>, to: Seq<char>, sum: u64) -> ConvPlan {
        if !self.spec_exists_currency(from) {
            ConvPlan::Unknown(from)
        } else if !self.spec_exists_currency(to) {
            ConvPlan::Unknown(to)
        } else if self.spec_entries().len() == 0 {
            ConvPlan::Empty
        } else if from == to {
            ConvPlan::Keep(sum)
        } else if from == self.spec_base() {
            ConvPlan::Mul(sum, self.spec_rates()[to])
        } else if to == self.spec_base() {
            if is_zero_rate(self.spec_rates()[from]) {
                ConvPlan::BadRate(from)
            } else {
                ConvPlan::Div(sum, self.spec_rates()[from])
            }
        } else {
            if is_zero_rate(self.spec_rates()[from]) {
                ConvPlan::BadRate(from)
            } else {
                ConvPlan::Cross(sum, self.spec_rates()[from], self.spec_rates()[to])
            }
        }
    }

    /// Index of the entry carrying `code`, if any.
    fn find(&self, code: &str) -> (r: Option<usize>)
        ensures
            match r {
                Some(i) => i < self.rates@.len() && self.rates@[i as int].0@ == code@,
                None => forall|j: int| 0 <= j < self.rates@.len() ==> self.rates@[j].0@ != code@,
            },
    {
        let mut i: usize = 0;
        while i < self.rates.len()
            invariant
                i <= self.rates@.len(),
                forall|j: int| 0 <= j < i ==> self.rates@[j].0@ != code@,
            decreases self.rates@.len() - i,
        {
            if str_eq(self.rates[i].0.as_str(), code) {
                return Some(i);
            }
            i = i + 1;
        }
        None
    }

    /// True when `code` is the base currency or has a stored rate.
    fn exists_code(&self, code: &str) -> (r: bool)
        ensures
            r == self.spec_exists_currency(code@),
    {
        proof {
            lemma_map_of_contains(self.rates@, code@);
        }
        if str_eq(self.base.as_str(), code) {
            return true;
        }
        self.find(code).is_some()
    }

    /// True when `c` is the base currency or has a stored rate.
    pub fn check_if_currency_exists(&self, c: String) -> (r: bool)
        ensures
            r == self.spec_exists_currency(c@),
    {
        self.exists_code(c.as_str())
    }

    /// Store `rate` for `code`, replacing any rate stored for it before.
    pub fn insert(&mut self, code: String, rate: u64)
        requires
            old(self).wf(),
        ensures
            final(self).wf(),
            final(self).spec_base() == old(self).spec_base(),
            final(self).spec_rates() == old(self).spec_rates().insert(code@, rate),
            final(self).spec_entries().len() >= 1,
            final(self).spec_entries().len() >= old(self).spec_entries().len(),
    {
        match self.find(code.as_str()) {
            Some(i) => {
                proof {
                    lemma_map_of_update(self.rates@, i as int, (code, rate));
                }
                self.rates.set(i, (code, rate));
            },
            None => {
                proof {
                    let pushed = self.rates@.push((code, rate));
                    assert(pushed.drop_last() =~= self.rates@);
                }
                self.rates.push((code, rate));
            },
        }
    }

    /// Give the base currency its rate of 1.0 against itself, replacing
    /// whatever rate the provider's payload may have carried for it.
    pub fn normalize(&mut self)
        requires
            old(self).wf(),
        ensures
            final(self).wf(),
            final(self).spec_base() == old(self).spec_base(),
            final(self).spec_rates() == old(self).spec_rates().insert(
                old(self).spec_base(),
                RATE_ONE_BITS,
            ),
            final(self).spec_entries().len() >= 1,
    {
        let code = self.base.as_str().to_owned();
        self.insert(code, RATE_ONE_BITS);
    }

    /// Build the table a refresh publishes: the fetched entries, taken in
    /// order, normalized so that the base currency is always present with
    /// rate 1.0.
    pub fn build_table(base: String, entries: &Vec<(String, u64)>) -> (r: ExchangeRates)
        ensures
            r.wf(),
            r.spec_base() == base@,
            r.spec_rates() == map_of(entries@).insert(base@, RATE_ONE_BITS),
            r.spec_entries().len() >= 1,
    {
        let mut table = ExchangeRates { base, rates: Vec::new() };
        let mut i: usize = 0;
        while i < entries.len()
            invariant
                table.wf(),
                table.spec_base() == base@,
                i <= entries@.len(),
                table.spec_rates() == map_of(entries@.subrange(0, i as int)),
            decreases entries@.len() - i,
        {
            let code = entries[i].0.as_str().to_owned();
            proof {
                let prefix = entries@.subrange(0, i as int);
                let next = entries@.subrange(0, i as int + 1);
                assert(next.drop_last() =~= prefix);
                assert(next.last() == entries@[i as int]);
            }
            table.insert(code, entries[i].1);
            i = i + 1;
        }
        proof {
            assert(entries@.subrange(0, entries@.len() as int) =~= entries@);
        }
        table.normalize();
        table
    }

    /// Every currency code with a stored rate, in storage order.
    pub fn get_all_currencies(&self) -> (r: Vec<String>)
        ensures
            r@.len() == self.spec_entries().len(),
            forall|i: int| 0 <= i < r@.len() ==> r@[i]@ == self.spec_entries()[i].0@,
    {
        let mut out: Vec<String> = Vec::new();
        let mut i: usize = 0;
        while i < self.rates.len()
            invariant
                i <= self.rates@.len(),
                out@.len() == i,
                forall|j: int| 0 <= j < i ==> out@[j]@ == self.rates@[j].0@,
            decreases self.rates@.len() - i,
        {
            out.push(self.rates[i].0.as_str().to_owned());
            i = i + 1;
        }
        out
    }

    /// The rate of `code`, or `None` for a currency the table does not know.
    pub fn rate_of(&self, code: &str) -> (r: Option<u64>)
        requires
            self.wf(),
        ensures
            r == self.spec_rate_of(code@),
    {
        proof {
            lemma_map_of_contains(self.rates@, code@);
        }
        match self.find(code) {
            Some(i) => {
                proof {
                    lemma_map_of_entry(self.rates@, i as int);
                }
                Some(self.rates[i].1)
            },
            None => {
                if str_eq(self.base.as_str(), code) {
                    Some(RATE_ONE_BITS)
                } else {
                    None
                }
            },
        }
    }
}

impl ExchangeRates {
    /// Decide a conversion request: the result realizes exactly the outcome
    /// that `spec_convert` prescribes for the request's currencies and sum.
    pub fn convert(&self, r: ConversionRequest) -> (res: Result<Conversion, ConversionError>)
        requires
            self.wf(),
        ensures
            plan_matches(res, self.spec_convert(r.from@, r.to@, r.sum)),
    {
        if !self.exists_code(r.from.as_str()) {
            return Err(ConversionError::UnknownCurrency(r.from));
        }
        if !self.exists_code(r.to.as_str()) {
            return Err(ConversionError::UnknownCurrency(r.to));
        }
        if self.rates.len() == 0 {
            return Err(ConversionError::EmptyRateTable);
        }
        if str_eq(r.from.as_str(), r.to.as_str()) {
            return Ok(Conversion::Unchanged { sum: r.sum });
        }
        if str_eq(r.from.as_str(), self.base.as_str()) {
            let rate_to = match self.rate_of(r.to.as_str()) {
                Some(v) => v,
                // Unreachable: the target exists and is not the base here,
                // so it has a stored rate.
                None => RATE_ONE_BITS,
            };
            return Ok(Conversion::FromBase { sum: r.sum, rate_to });
        }
        let rate_from = match self.rate_of(r.from.as_str()) {
            Some(v) => v,
            // Unreachable: the source exists and is not the base here.
            None => RATE_ONE_BITS,
        };
        if rate_is_zero(rate_from) {
            return Err(ConversionError::InvalidRate(r.from));
        }
        if str_eq(r.to.as_str(), self.base.as_str()) {
            return Ok(Conversion::ToBase { sum: r.sum, rate_from });
        }
        let rate_to = match self.rate_of(r.to.as_str()) {
            Some(v) => v,
            // Unreachable: the target exists and is not the base here.
            None => RATE_ONE_BITS,
        };
        Ok(Conversion::CrossRate { sum: r.sum, rate_from, rate_to })
    }
}

/// A currency with a stored rate converts to itself unchanged: for any `x`
/// among the stored codes and any sum `s`, the prescribed outcome of
/// converting `s` from `x` to `x` is to keep `s` as it is.
pub proof fn lemma_convert_same_currency(t: ExchangeRates, x: Seq<char>, s: u64)
    requires
        t.spec_rates().contains_key(x),
    ensures
        t.spec_convert(x, x, s) == ConvPlan::Keep(s),
{
    lemma_map_of_contains(t.spec_entries(), x);
    let i = choose|i: int| 0 <= i < t.spec_entries().len() && t.spec_entries()[i].0@ == x;
    assert(t.spec_entries().len() > 0);
}

/// Converting out of the base currency multiplies by the target's stored
/// rate: for any stored `y` other than the base, the prescribed outcome is
/// `s * rate(y)`; for the base itself the equality short circuit keeps `s`.
pub proof fn lemma_convert_from_base(t: ExchangeRates, y: Seq<char>, s: u64)
    requires
        t.spec_rates().contains_key(y),
    ensures
        y == t.spec_base() ==> t.spec_convert(t.spec_base(), y, s) == ConvPlan::Keep(s),
        y != t.spec_base() ==> t.spec_convert(t.spec_base(), y, s) == ConvPlan::Mul(
            s,
            t.spec_rates()[y],
        ),
{
    lemma_map_of_contains(t.spec_entries(), y);
    let i = choose|i: int| 0 <= i < t.spec_entries().len() && t.spec_entries()[i].0@ == y;
    assert(t.spec_entries().len() > 0);
}

/// Converting into the base currency divides by the source's stored rate:
/// for any stored `y` other than the base whose rate is not zero, the
/// prescribed outcome is `s / rate(y)`; for the base itself the equality
/// short circuit keeps `s`.
pub proof fn lemma_convert_to_base(t: ExchangeRates, y: Seq<char>, s: u64)
    requires
        t.spec_rates().contains_key(y),
        !is_zero_rate(t.spec_rates()[y]),
    ensures
        y == t.spec_base() ==> t.spec_convert(y, t.spec_base(), s) == ConvPlan::Keep(s),
        y != t.spec_base() ==> t.spec_convert(y, t.spec_base(), s) == ConvPlan::Div(
            s,
            t.spec_rates()[y],
        ),
{
    lemma_map_of_contains(t.spec_entries(), y);
    let i = choose|i: int| 0 <= i < t.spec_entries().len() && t.spec_entries()[i].0@ == y;
    assert(t.spec_entries().len() > 0);
}

/// A cross conversion routes through the base with the stored rates and no
/// other operands: for stored `x` and `y`, both distinct from the base and
/// from each other, with `rate(x)` not zero, the prescribed outcome is
/// `(s / rate(x)) * rate(y)` — first the division into the base, then the
/// multiplication out of it.
pub proof fn lemma_convert_cross(t: ExchangeRates, x: Seq<char>, y: Seq<char>, s: u64)
    requires
        t.spec_rates().contains_key(x),
        t.spec_rates().contains_key(y),
        x != y,
        x != t.spec_base(),
        y != t.spec_base(),
        !is_zero_rate(t.spec_rates()[x]),
    ensures
        t.spec_convert(x, y, s) == ConvPlan::Cross(s, t.spec_rates()[x], t.spec_rates()[y]),
{
    lemma_map_of_contains(t.spec_entries(), x);
    let i = choose|i: int| 0 <= i < t.spec_entries().len() && t.spec_entries()[i].0@ == x;
    assert(t.spec_entries().len() > 0);
}

/// A conversion involving a currency that is neither the base nor stored is
/// refused as unknown, the source being reported before the target.
pub proof fn lemma_convert_unknown(t: ExchangeRates, from: Seq<char>, to: Seq<char>, s: u64)
    ensures
        !t.spec_exists_currency(from) ==> t.spec_convert(from, to, s) == ConvPlan::Unknown(from),
        t.spec_exists_currency(from) && !t.spec_exists_currency(to) ==> t.spec_convert(
            from,
            to,
            s,
        ) == ConvPlan::Unknown(to),
{
}

/// A table with no stored rates refuses every conversion as empty — even
/// from the base currency to itself, because the emptiness check precedes
/// the equality short circuit.
pub proof fn lemma_convert_empty(t: ExchangeRates, from: Seq<char>, to: Seq<char>, s: u64)
    requires
        t.spec_entries().len() == 0,
        t.spec_exists_currency(from),
        t.spec_exists_currency(to),
    ensures
        t.spec_convert(from, to, s) == ConvPlan::Empty,
{
}

impl Default for ExchangeRates {
    /// A table with base currency "USD" and no stored rates.
    fn default() -> (r: Self)
        ensures
            r.wf(),
            r.spec_base() == "USD"@,
            r.spec_entries().len() == 0,
            r.spec_rates() == Map::<Seq<char>, u64>::empty(),
    {
        ExchangeRates { base: "USD".to_owned(), rates: Vec::new() }
    }
}

} // verus!
