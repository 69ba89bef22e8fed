use vstd::prelude::*;
use crate::scalar::Scalar;

verus! {

/// Errors of signal routines.
#[derive(Clone, Debug, PartialEq, Eq)]
pub enum SignalError {
    /// An argument has a value that the routine does not accept.
    ValueError(String),
}

/// How a signal is extended past its ends.
#[derive(Clone, Copy, Debug, PartialEq, Eq, Structural)]
pub enum ExtensionMode {
    /// Mirror images of the signal, edge values repeated.
    Symmetric,
    /// The signal repeated periodically.
    Periodic,
    /// Mirror images of the signal, edge values not repeated.
    Reflect,
    /// The edge values repeated.
    Constant,
    /// Zeros.
    Zero,
}

/// The mode that a name stands for, if any.
pub open spec fn mode_named(name: Seq<char>) -> Option<ExtensionMode> {
    if name == "symmetric"@ {
        Some(ExtensionMode::Symmetric)
    } else if name == "periodic"@ {
        Some(ExtensionMode::Periodic)
    } else if name == "reflect"@ {
        Some(ExtensionMode::Reflect)
    } else if name == "constant"@ {
        Some(ExtensionMode::Constant)
    } else if name == "zero"@ {
        Some(ExtensionMode::Zero)
    } else {
        None
    }
}

/// The mode named `name`.
pub fn parse_mode(name: &str) -> (r: Option<ExtensionMode>)
    ensures
        r == mode_named(name@),
{
    let s = name.to_owned();
    if s == String::from_str("symmetric") {
        Some(ExtensionMode::Symmetric)
    } else if s == String::from_str("periodic") {
        Some(ExtensionMode::Periodic)
    } else if s == String::from_str("reflect") {
        Some(ExtensionMode::Reflect)
    } else if s == String::from_str("constant") {
        Some(ExtensionMode::Constant)
    } else if s == String::from_str("zero") {
        Some(ExtensionMode::Zero)
    } else {
        None
    }
}

/// `pad` samples of padding fit on each side of a signal of length `n > 0`:
/// periodic padding repeats at most one period, and mirrored padding at most one
/// mirror image beyond the signal.
pub open spec fn padding_fits(mode: ExtensionMode, n: nat, pad: nat) -> bool {
    match mode {
        ExtensionMode::Periodic => pad <= n,
        ExtensionMode::Symmetric | ExtensionMode::Reflect => n <= 1 || pad + 1 <= 2 * n,
        _ => true,
    }
}

/// The index into a signal of length `n > 0` of the `i`-th sample of the left
/// padding, counted from the outside in.
pub open spec fn left_index(mode: ExtensionMode, n: int, pad: int, i: int) -> int {
    match mode {
        ExtensionMode::Symmetric => {
            let idx = pad - i - 1;
            if idx < n {
                idx
            } else if n > 1 {
                2 * n - idx - 2
            } else {
                0
            }
        },
        ExtensionMode::Periodic => (n - pad + i) % n,
        ExtensionMode::Reflect => reflect_index(n, i),
        ExtensionMode::Constant => 0,
        ExtensionMode::Zero => 0,
    }
}

/// The index into a signal of length `n > 0` of the `i`-th sample of the right
/// padding, counted from the signal outwards.
pub open spec fn right_index(mode: ExtensionMode, n: int, i: int) -> int {
    match mode {
        ExtensionMode::Symmetric => if n > 2 && i < n - 2 {
            n - 2 - i
        } else {
            i % n
        },
        ExtensionMode::Periodic => i % n,
        ExtensionMode::Reflect => reflect_index(n, i),
        ExtensionMode::Constant => n - 1,
        ExtensionMode::Zero => 0,
    }
}

pub open spec fn reflect_index(n: int, i: int) -> int {
    if n <= 1 {
        0
    } else if i < n - 1 {
        n - 2 - i
    } else {
        (2 * n - 2 - i) % n
    }
}

/// The value at `idx`, or zero in zero mode.
pub open spec fn pad_value<T: Scalar>(signal: Seq<T>, mode: ExtensionMode, idx: int) -> T {
    if mode == ExtensionMode::Zero {
        T::spec_zero()
    } else {
        signal[idx]
    }
}

/// The message that rejects an unknown mode name.
pub open spec fn unknown_mode_message(name: Seq<char>) -> Seq<char> {
    "Unsupported extension mode: "@ + name
        + ". Valid modes are 'symmetric', 'periodic', 'reflect', 'constant', and 'zero'."@
}

fn pad_at<T: Scalar>(signal: &[T], mode: ExtensionMode, pad: usize, i: usize, left: bool) -> (r: T)
    requires
        signal@.len() > 0,
        i < pad,
        padding_fits(mode, signal@.len(), pad as nat),
    ensures
        left ==> 0 <= left_index(mode, signal@.len() as int, pad as int, i as int) < signal@.len()
            && r == pad_value(signal@, mode, left_index(mode, signal@.len() as int, pad as int, i as int)),
        !left ==> 0 <= right_index(mode, signal@.len() as int, i as int) < signal@.len()
            && r == pad_value(signal@, mode, right_index(mode, signal@.len() as int, i as int)),
{
    let n = signal.len();
    let idx: usize = match mode {
        ExtensionMode::Symmetric => {
            if left {
                let k = pad - i - 1;
                if k < n {
                    k
                } else if n > 1 {
                    n - 2 - (k - n)
                } else {
                    0
                }
            } else if n > 2 && i < n - 2 {
                n - 2 - i
            } else {
                i % n
            }
        },
        ExtensionMode::Periodic => if left {
            (n - pad + i) % n
        } else {
            i % n
        },
        ExtensionMode::Reflect => {
            if n <= 1 {
                0
            } else if i < n - 1 {
                n - 2 - i
            } else {
                (n - 1 - (i - (n - 1))) % n
            }
        },
        ExtensionMode::Constant => if left {
            0
        } else {
            n - 1
        },
        ExtensionMode::Zero => {
            return T::zero();
        },
    };
    signal[idx]
}

/// The signal with `filter_len - 1` samples of padding on each side, for a
/// wavelet filter of length `filter_len`, in the mode named `mode`. An empty
/// signal gives zeros. An unknown mode name, or padding longer than the mode can
/// take from the signal, is a `ValueError`.
pub fn extend_signal<T: Scalar>(signal: &[T], filter_len: usize, mode: &str) -> (r: Result<
    Vec<T>,
    SignalError,
>)
    requires
        filter_len >= 1,
        signal@.len() + 2 * (filter_len - 1) <= usize::MAX,
    ensures
        ({
            let n = signal@.len() as int;
            let pad = filter_len - 1;
            if n == 0 {
                r matches Ok(v) && v@.len() == 2 * pad && forall|k: int|
                    0 <= k < v@.len() ==> v@[k] == T::spec_zero()
            } else {
                match mode_named(mode@) {
                    None => r matches Err(SignalError::ValueError(m)) && m@ == unknown_mode_message(
                        mode@,
                    ),
                    Some(md) => if !padding_fits(md, n as nat, pad as nat) {
                        r is Err
                    } else {
                        r matches Ok(v) && v@.len() == n + 2 * pad && (forall|i: int|
                            0 <= i < pad ==> v@[i] == pad_value(
                                signal@,
                                md,
                                left_index(md, n, pad as int, i),
                            )) && (forall|j: int| 0 <= j < n ==> v@[pad + j] == signal@[j]) && (
                        forall|i: int|
                            0 <= i < pad ==> v@[pad + n + i] == pad_value(
                                signal@,
                                md,
                                right_index(md, n, i),
                            ))
                    },
                }
            }
        }),
{
    let n = signal.len();
    let pad = filter_len - 1;
    let mut out: Vec<T> = Vec::new();
    if n == 0 {
        let z = T::zero();
        let mut k: usize = 0;
        while k < 2 * pad
            invariant
                k <= 2 * pad,
                pad == filter_len - 1,
                2 * pad <= usize::MAX,
                out@.len() == k,
                z == T::spec_zero(),
                forall|q: int| 0 <= q < k ==> out@[q] == T::spec_zero(),
            decreases 2 * pad - k,
        {
            out.push(z);
            k = k + 1;
        }
        return Ok(out);
    }
    let md = match parse_mode(mode) {
        Some(md) => md,
        None => {
            let msg = String::from_str("Unsupported extension mode: ").concat(mode).concat(
                ". Valid modes are 'symmetric', 'periodic', 'reflect', 'constant', and 'zero'.",
            );
            return Err(SignalError::ValueError(msg));
        },
    };
    let fits = match md {
        ExtensionMode::Periodic => pad <= n,
        ExtensionMode::Symmetric | ExtensionMode::Reflect => n <= 1 || pad < n || pad - n < n,
        _ => true,
    };
    if !fits {
        return Err(
            SignalError::ValueError(String::from_str("padding is longer than the mode allows")),
        );
    }
    let mut i: usize = 0;
    while i < pad
        invariant
            n == signal@.len(),
            n > 0,
            pad == filter_len - 1,
            n + 2 * pad <= usize::MAX,
            padding_fits(md, n as nat, pad as nat),
            i <= pad,
            out@.len() == i,
            forall|q: int|
                0 <= q < i ==> out@[q] == pad_value(signal@, md, left_index(md, n as int, pad as int, q)),
        decreases pad - i,
    {
        out.push(pad_at(signal, md, pad, i, true));
        i = i + 1;
    }
    let mut j: usize = 0;
    while j < n
        invariant
            n == signal@.len(),
            n + 2 * pad <= usize::MAX,
            j <= n,
            out@.len() == pad + j,
            forall|q: int|
                0 <= q < pad ==> out@[q] == pad_value(signal@, md, left_index(md, n as int, pad as int, q)),
            forall|q: int| 0 <= q < j ==> out@[pad + q] == signal@[q],
        decreases n - j,
    {
        out.push(signal[j]);
        j = j + 1;
    }
    let mut i: usize = 0;
    while i < pad
        invariant
            n == signal@.len(),
            n > 0,
            pad == filter_len - 1,
            n + 2 * pad <= usize::MAX,
            padding_fits(md, n as nat, pad as nat),
            i <= pad,
            out@.len() == pad + n + i,
            forall|q: int|
                0 <= q < pad ==> out@[q] == pad_value(signal@, md, left_index(md, n as int, pad as int, q)),
            forall|q: int| 0 <= q < n ==> out@[pad + q] == signal@[q],
            forall|q: int|
                0 <= q < i ==> out@[pad + n + q] == pad_value(signal@, md, right_index(md, n as int, q)),
        decreases pad - i,
    {
        out.push(pad_at(signal, md, pad, i, false));
        i = i + 1;
    }
    Ok(out)
}

} // verus!
