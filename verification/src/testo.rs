//! Strumenti sul testo in byte: classificazione dei caratteri e grammatica
//! dei token numerici in virgola mobile usati dal formato di salvataggio.
use vstd::prelude::*;

verus! {

/// Il byte e' una cifra decimale.
pub open spec fn cifra(b: u8) -> bool {
    ('0' as u8) <= b <= ('9' as u8)
}

/// Il byte e' una cifra decimale diversa da zero.
pub open spec fn cifra_non_zero(b: u8) -> bool {
    ('1' as u8) <= b <= ('9' as u8)
}

/// Il byte e' un segno aritmetico.
pub open spec fn segno(b: u8) -> bool {
    b == ('+' as u8) || b == ('-' as u8)
}

/// Il byte introduce l'esponente di un numero in virgola mobile.
pub open spec fn lettera_esponente(b: u8) -> bool {
    b == ('e' as u8) || b == ('E' as u8)
}

/// Il byte e' uno spazio bianco (spazio o controllo di tabulazione/riga).
pub open spec fn bianco(b: u8) -> bool {
    b == (' ' as u8) || (9 <= b <= 13)
}

/// Versione minuscola di un byte alfabetico.
pub open spec fn minuscola(b: u8) -> u8 {
    if ('A' as u8) <= b <= ('Z' as u8) {
        (b + 32) as u8
    } else {
        b
    }
}

/// La sequenza con ogni byte reso minuscolo.
pub open spec fn minuscole(s: Seq<u8>) -> Seq<u8> {
    s.map_values(|b: u8| minuscola(b))
}

pub open spec fn testo_inf() -> Seq<u8> {
    seq![('i' as u8), ('n' as u8), ('f' as u8)]
}

pub open spec fn testo_infinity() -> Seq<u8> {
    seq![
        ('i' as u8),
        ('n' as u8),
        ('f' as u8),
        ('i' as u8),
        ('n' as u8),
        ('i' as u8),
        ('t' as u8),
        ('y' as u8),
    ]
}

pub open spec fn testo_nan() -> Seq<u8> {
    seq![('n' as u8), ('a' as u8), ('n' as u8)]
}

/// Token speciale della grammatica in virgola mobile: infinito o non-numero,
/// confrontato senza distinguere maiuscole e minuscole.
pub open spec fn token_speciale(s: Seq<u8>) -> bool {
    ||| minuscole(s) == testo_inf()
    ||| minuscole(s) == testo_infinity()
    ||| minuscole(s) == testo_nan()
}

/// Token speciale che vale piu' di zero: un infinito senza segno gia' tolto.
pub open spec fn token_speciale_positivo(s: Seq<u8>) -> bool {
    ||| minuscole(s) == testo_inf()
    ||| minuscole(s) == testo_infinity()
}

/// Tutti i byte della sequenza sono cifre decimali.
pub open spec fn tutte_cifre(s: Seq<u8>) -> bool {
    forall|i: int| 0 <= i < s.len() ==> cifra(s[i])
}

/// Nella sequenza compare al piu' un punto decimale.
pub open spec fn al_piu_un_punto(s: Seq<u8>) -> bool {
    forall|i: int, j: int|
        0 <= i < s.len() && 0 <= j < s.len() && s[i] == ('.' as u8) && s[j] == ('.' as u8) ==> i
            == j
}

/// Ogni byte della sequenza e' una cifra o il punto decimale.
pub open spec fn solo_cifre_o_punto(s: Seq<u8>) -> bool {
    forall|i: int| 0 <= i < s.len() ==> (cifra(s[i]) || s[i] == ('.' as u8))
}

/// Nella sequenza compare almeno una cifra decimale.
pub open spec fn contiene_cifra(s: Seq<u8>) -> bool {
    exists|i: int| 0 <= i < s.len() && cifra(s[i])
}

/// Mantissa valida di un numero: cifre con al piu' un punto decimale
/// e almeno una cifra.
pub open spec fn mantissa_valida(s: Seq<u8>) -> bool {
    &&& s.len() > 0
    &&& solo_cifre_o_punto(s)
    &&& al_piu_un_punto(s)
    &&& contiene_cifra(s)
}

/// Esponente valido: un segno facoltativo seguito da almeno una cifra.
pub open spec fn esponente_valido(s: Seq<u8>) -> bool {
    let corpo = if s.len() > 0 && segno(s[0]) {
        s.skip(1)
    } else {
        s
    };
    corpo.len() > 0 && tutte_cifre(corpo)
}

/// Numero valido: una mantissa, eventualmente seguita da una lettera di
/// esponente e da un esponente valido.
pub open spec fn numero_valido(s: Seq<u8>) -> bool {
    ||| mantissa_valida(s)
    ||| exists|i: int|
        0 <= i < s.len() && lettera_esponente(s[i]) && mantissa_valida(s.take(i))
            && esponente_valido(s.skip(i + 1))
}

/// Il corpo di un token: il token senza l'eventuale segno iniziale.
pub open spec fn corpo_token(s: Seq<u8>) -> Seq<u8> {
    if s.len() > 0 && segno(s[0]) {
        s.skip(1)
    } else {
        s
    }
}

/// Token numerico in virgola mobile: segno facoltativo seguito da un numero
/// o da un token speciale (infinito, non-numero).
pub open spec fn token_numerico(s: Seq<u8>) -> bool {
    token_speciale(corpo_token(s)) || numero_valido(corpo_token(s))
}

/// Nel numero compare una cifra diversa da zero prima dell'eventuale
/// lettera di esponente: il valore decimale scritto non e' zero.
pub open spec fn numero_non_zero(s: Seq<u8>) -> bool {
    exists|i: int|
        0 <= i < s.len() && cifra_non_zero(s[i]) && (forall|j: int|
            0 <= j < i ==> !lettera_esponente(s[j]))
}

/// Token numerico il cui valore scritto e' maggiore di zero: senza segno
/// negativo, ed e' un infinito oppure un numero con mantissa non nulla.
pub open spec fn token_positivo(s: Seq<u8>) -> bool {
    &&& token_numerico(s)
    &&& !(s.len() > 0 && s[0] == ('-' as u8))
    &&& (token_speciale_positivo(corpo_token(s)) || (numero_valido(corpo_token(s))
        && numero_non_zero(corpo_token(s))))
}

/// Byte che possono comparire in un token numerico: cifre, segni, punto,
/// lettere di esponente e le lettere dei token speciali.
pub open spec fn byte_di_token(b: u8) -> bool {
    ||| cifra(b)
    ||| segno(b)
    ||| b == ('.' as u8)
    ||| lettera_esponente(b)
    ||| b == ('i' as u8) || b == ('I' as u8)
    ||| b == ('n' as u8) || b == ('N' as u8)
    ||| b == ('f' as u8) || b == ('F' as u8)
    ||| b == ('a' as u8) || b == ('A' as u8)
    ||| b == ('t' as u8) || b == ('T' as u8)
    ||| b == ('y' as u8) || b == ('Y' as u8)
}

/// Un token numerico non e' vuoto ed e' fatto dei soli byte ammessi: in
/// particolare non contiene spazi bianchi, punti e virgola, virgole,
/// trattini bassi, parentesi quadre ne' a capo.
pub proof fn lemma_byte_token(s: Seq<u8>)
    requires
        token_numerico(s),
    ensures
        s.len() > 0,
        forall|j: int| 0 <= j < s.len() ==> byte_di_token(#[trigger] s[j]),
{
    let corpo = corpo_token(s);
    if token_speciale(corpo) {
        assert(minuscole(corpo).len() == corpo.len());
        assert forall|j: int| 0 <= j < corpo.len() implies byte_di_token(#[trigger] corpo[j]) by {
            assert(minuscole(corpo)[j] == minuscola(corpo[j]));
            if minuscole(corpo) == testo_inf() {
                assert(0 <= j < 3);
            } else if minuscole(corpo) == testo_infinity() {
                assert(0 <= j < 8);
            } else {
                assert(0 <= j < 3);
            }
        }
    } else {
        assert(numero_valido(corpo));
        if mantissa_valida(corpo) {
            assert forall|j: int| 0 <= j < corpo.len() implies byte_di_token(
                #[trigger] corpo[j],
            ) by {
                assert(cifra(corpo[j]) || corpo[j] == ('.' as u8));
            }
        } else {
            let i = choose|i: int|
                0 <= i < corpo.len() && lettera_esponente(corpo[i]) && mantissa_valida(
                    corpo.take(i),
                ) && esponente_valido(corpo.skip(i + 1));
            assert forall|j: int| 0 <= j < corpo.len() implies byte_di_token(
                #[trigger] corpo[j],
            ) by {
                if j < i {
                    assert(corpo.take(i)[j] == corpo[j]);
                    assert(cifra(corpo[j]) || corpo[j] == ('.' as u8));
                } else if j == i {
                } else {
                    let coda = corpo.skip(i + 1);
                    assert(coda[j - i - 1] == corpo[j]);
                    let corpo2 = if coda.len() > 0 && segno(coda[0]) {
                        coda.skip(1)
                    } else {
                        coda
                    };
                    if j == i + 1 && coda.len() > 0 && segno(coda[0]) {
                    } else {
                        if coda.len() > 0 && segno(coda[0]) {
                            assert(corpo2[j - i - 2] == coda[j - i - 1]);
                            assert(cifra(coda[j - i - 1]));
                        } else {
                            assert(corpo2[j - i - 1] == coda[j - i - 1]);
                            assert(cifra(coda[j - i - 1]));
                        }
                    }
                }
            }
        }
    }
    assert(corpo.len() > 0);
    assert forall|j: int| 0 <= j < s.len() implies byte_di_token(#[trigger] s[j]) by {
        if s.len() > 0 && segno(s[0]) {
            if j >= 1 {
                assert(corpo[j - 1] == s[j]);
            }
        } else {
            assert(corpo[j] == s[j]);
        }
    }
}

/// Valore del numero decimale scritto nella sequenza di cifre.
pub open spec fn valore_decimale(s: Seq<u8>) -> int
    decreases s.len(),
{
    if s.len() == 0 {
        0
    } else {
        valore_decimale(s.drop_last()) * 10 + (s.last() - ('0' as u8))
    }
}

/// Forma accettata per un intero senza segno: un piu' facoltativo seguito
/// da almeno una cifra.
pub open spec fn forma_usize(s: Seq<u8>) -> bool {
    let corpo = if s.len() > 0 && s[0] == ('+' as u8) {
        s.skip(1)
    } else {
        s
    };
    corpo.len() > 0 && tutte_cifre(corpo)
}

/// Le cifre dell'intero senza il piu' iniziale.
pub open spec fn cifre_usize(s: Seq<u8>) -> Seq<u8> {
    if s.len() > 0 && s[0] == ('+' as u8) {
        s.skip(1)
    } else {
        s
    }
}

/// Il valore scritto non cala quando si tolgono cifre in coda.
pub proof fn lemma_valore_non_negativo(s: Seq<u8>)
    requires
        tutte_cifre(s),
    ensures
        valore_decimale(s) >= 0,
    decreases s.len(),
{
    if s.len() > 0 {
        lemma_valore_non_negativo(s.drop_last());
    }
}

/// Un prefisso di cifre scrive un valore non maggiore dell'intera sequenza.
pub proof fn lemma_valore_prefisso(s: Seq<u8>, k: int)
    requires
        tutte_cifre(s),
        0 <= k <= s.len(),
    ensures
        valore_decimale(s.take(k)) <= valore_decimale(s),
    decreases s.len() - k,
{
    if k < s.len() {
        lemma_valore_prefisso(s, k + 1);
        assert(s.take(k + 1).drop_last() =~= s.take(k));
        assert(s.take(k + 1).last() == s[k]);
        lemma_valore_non_negativo(s.take(k));
    } else {
        assert(s.take(k) =~= s);
    }
}

/// Legge un intero senza segno in base dieci, rifiutando forme non valide
/// e valori oltre la capienza della macchina.
pub fn analizza_usize(t: &Vec<u8>) -> (r: Option<usize>)
    ensures
        match r {
            Some(v) => forma_usize(t@) && v == valore_decimale(cifre_usize(t@)),
            None => !forma_usize(t@) || valore_decimale(cifre_usize(t@)) > usize::MAX,
        },
{
    let n = t.len();
    let inizio: usize = if n > 0 && t[0] == ('+' as u8) {
        1
    } else {
        0
    };
    let ghost cifre = cifre_usize(t@);
    proof {
        assert(cifre =~= t@.skip(inizio as int));
    }
    if inizio == n {
        return None;
    }
    let mut k: usize = inizio;
    let mut acc: usize = 0;
    while k < n
        invariant
            inizio <= k <= n,
            n == t.len(),
            inizio < n,
            cifre == t@.skip(inizio as int),
            cifre == cifre_usize(t@),
            forall|j: int| inizio <= j < k ==> cifra(t@[j]),
            acc == valore_decimale(cifre.take(k - inizio)),
        decreases n - k,
    {
        let b = t[k];
        if !(b >= ('0' as u8) && b <= ('9' as u8)) {
            assert(cifre[k - inizio] == t@[k as int]);
            assert(!tutte_cifre(cifre));
            return None;
        }
        let ghost prefisso = cifre.take(k - inizio);
        let ghost esteso = cifre.take(k + 1 - inizio);
        proof {
            assert(esteso.drop_last() =~= prefisso);
            assert(esteso.last() == cifre[k - inizio] == t@[k as int]);
        }
        let acc10 = match acc.checked_mul(10) {
            Some(x) => x,
            None => {
                proof {
                    assert(valore_decimale(esteso) > usize::MAX);
                    if tutte_cifre(cifre) {
                        lemma_valore_prefisso(cifre, k + 1 - inizio);
                    } else {
                        assert(!forma_usize(t@));
                    }
                }
                return None;
            },
        };
        let nuovo = match acc10.checked_add((b - ('0' as u8)) as usize) {
            Some(x) => x,
            None => {
                proof {
                    assert(valore_decimale(esteso) > usize::MAX);
                    if tutte_cifre(cifre) {
                        lemma_valore_prefisso(cifre, k + 1 - inizio);
                    } else {
                        assert(!forma_usize(t@));
                    }
                }
                return None;
            },
        };
        acc = nuovo;
        k += 1;
    }
    proof {
        assert(cifre.take(n - inizio) =~= cifre);
        assert forall|j: int| 0 <= j < cifre.len() implies cifra(cifre[j]) by {
            assert(cifre[j] == t@[inizio + j]);
        }
    }
    Some(acc)
}

/// Scrittura decimale di un intero non negativo.
pub open spec fn rappresentazione_usize(n: int) -> Seq<u8>
    decreases n,
{
    if n < 10 {
        seq![(n + ('0' as u8)) as u8]
    } else {
        rappresentazione_usize(n / 10).push((n % 10 + ('0' as u8)) as u8)
    }
}

/// La scrittura decimale e' fatta di sole cifre e riscrive il valore.
pub proof fn lemma_rappresentazione_usize(n: int)
    requires
        0 <= n,
    ensures
        rappresentazione_usize(n).len() >= 1,
        tutte_cifre(rappresentazione_usize(n)),
        valore_decimale(rappresentazione_usize(n)) == n,
        forma_usize(rappresentazione_usize(n)),
        cifre_usize(rappresentazione_usize(n)) == rappresentazione_usize(n),
    decreases n,
{
    if n < 10 {
        let s = rappresentazione_usize(n);
        assert(s.len() == 1);
        assert(s.last() == (n + ('0' as u8)) as u8);
        assert(s.drop_last() =~= Seq::<u8>::empty());
        assert(valore_decimale(s.drop_last()) == 0);
        assert(valore_decimale(s) == valore_decimale(s.drop_last()) * 10 + (s.last() - ('0' as u8)));
        assert(valore_decimale(s) == n);
    } else {
        lemma_rappresentazione_usize(n / 10);
        let s = rappresentazione_usize(n);
        assert(s.drop_last() =~= rappresentazione_usize(n / 10));
        assert(valore_decimale(s) == (n / 10) * 10 + n % 10);
        assert((n / 10) * 10 + n % 10 == n) by (nonlinear_arith);
    }
}

/// Scrive un intero senza segno in base dieci.
pub fn scrivi_usize(n: usize) -> (r: Vec<u8>)
    ensures
        r@ == rappresentazione_usize(n as int),
{
    let mut inversa: Vec<u8> = Vec::new();
    let mut resto: usize = n;
    while resto >= 10
        invariant
            rappresentazione_usize(n as int) =~= rappresentazione_usize(resto as int)
                + inversa@.reverse(),
        decreases resto,
    {
        let cifra_bassa: u8 = (resto % 10) as u8 + ('0' as u8);
        proof {
            let ghost dopo = inversa@.push(cifra_bassa);
            assert(dopo.reverse() =~= seq![cifra_bassa] + inversa@.reverse());
            assert(rappresentazione_usize(resto as int) =~= rappresentazione_usize(
                resto as int / 10,
            ) + seq![cifra_bassa]);
            assert(rappresentazione_usize(resto as int / 10) + seq![cifra_bassa]
                + inversa@.reverse() =~= rappresentazione_usize(resto as int / 10)
                + dopo.reverse());
        }
        inversa.push(cifra_bassa);
        resto = resto / 10;
    }
    let mut r: Vec<u8> = Vec::new();
    r.push(resto as u8 + ('0' as u8));
    proof {
        assert(rappresentazione_usize(resto as int) =~= seq![(resto + ('0' as u8)) as u8]);
        assert(r@ + inversa@.reverse() =~= rappresentazione_usize(n as int));
    }
    while inversa.len() > 0
        invariant
            r@ + inversa@.reverse() =~= rappresentazione_usize(n as int),
        decreases inversa.len(),
    {
        let ghost prima = inversa@;
        let b = inversa.pop().unwrap();
        r.push(b);
        proof {
            assert(prima.reverse() =~= seq![b] + prima.drop_last().reverse());
            assert(r@ + inversa@.reverse() =~= rappresentazione_usize(n as int));
        }
    }
    proof {
        assert(inversa@.reverse() =~= Seq::<u8>::empty());
        assert(r@ =~= rappresentazione_usize(n as int));
    }
    r
}

/// Confronto byte per byte di due vettori.
pub fn uguali_byte(a: &Vec<u8>, b: &Vec<u8>) -> (r: bool)
    ensures
        r == (a@ == b@),
{
    if a.len() != b.len() {
        assert(a@.len() != b@.len());
        return false;
    }
    let mut i: usize = 0;
    while i < a.len()
        invariant
            i <= a.len(),
            a@.len() == b@.len(),
            forall|j: int| 0 <= j < i ==> a@[j] == b@[j],
        decreases a.len() - i,
    {
        if a[i] != b[i] {
            return false;
        }
        i += 1;
    }
    assert(a@ =~= b@);
    true
}

/// Versione minuscola di un byte.
pub fn byte_minuscola(b: u8) -> (r: u8)
    ensures
        r == minuscola(b),
{
    if b >= ('A' as u8) && b <= ('Z' as u8) {
        b + 32
    } else {
        b
    }
}

/// Copia in minuscolo della coda di `t` a partire da `da`.
pub fn minuscole_da(t: &Vec<u8>, da: usize) -> (r: Vec<u8>)
    requires
        da <= t.len(),
    ensures
        r@ == minuscole(t@.skip(da as int)),
{
    let mut r: Vec<u8> = Vec::new();
    let mut i: usize = da;
    while i < t.len()
        invariant
            da <= i <= t.len(),
            r@.len() == i - da,
            forall|j: int| 0 <= j < r@.len() ==> r@[j] == minuscola(t@[da + j]),
        decreases t.len() - i,
    {
        r.push(byte_minuscola(t[i]));
        i += 1;
    }
    assert(r@ =~= minuscole(t@.skip(da as int)));
    r
}

fn vettore_inf() -> (r: Vec<u8>)
    ensures
        r@ == testo_inf(),
{
    let mut r: Vec<u8> = Vec::new();
    r.push('i' as u8);
    r.push('n' as u8);
    r.push('f' as u8);
    assert(r@ =~= testo_inf());
    r
}

fn vettore_infinity() -> (r: Vec<u8>)
    ensures
        r@ == testo_infinity(),
{
    let mut r: Vec<u8> = Vec::new();
    r.push('i' as u8);
    r.push('n' as u8);
    r.push('f' as u8);
    r.push('i' as u8);
    r.push('n' as u8);
    r.push('i' as u8);
    r.push('t' as u8);
    r.push('y' as u8);
    assert(r@ =~= testo_infinity());
    r
}

fn vettore_nan() -> (r: Vec<u8>)
    ensures
        r@ == testo_nan(),
{
    let mut r: Vec<u8> = Vec::new();
    r.push('n' as u8);
    r.push('a' as u8);
    r.push('n' as u8);
    assert(r@ =~= testo_nan());
    r
}

/// La coda di `t` da `da` e' un infinito scritto in lettere.
fn e_infinito(t: &Vec<u8>, da: usize) -> (r: bool)
    requires
        da <= t.len(),
    ensures
        r == token_speciale_positivo(t@.skip(da as int)),
{
    let min = minuscole_da(t, da);
    let vi = vettore_inf();
    let vy = vettore_infinity();
    uguali_byte(&min, &vi) || uguali_byte(&min, &vy)
}

/// La coda di `t` da `da` e' un non-numero scritto in lettere.
fn e_non_numero(t: &Vec<u8>, da: usize) -> (r: bool)
    requires
        da <= t.len(),
    ensures
        r == (minuscole(t@.skip(da as int)) == testo_nan()),
{
    let min = minuscole_da(t, da);
    let vn = vettore_nan();
    uguali_byte(&min, &vn)
}

/// La porzione `[da, a)` di `t` e' una mantissa valida.
fn mantissa_ok(t: &Vec<u8>, da: usize, a: usize) -> (r: bool)
    requires
        da <= a <= t.len(),
    ensures
        r == mantissa_valida(t@.subrange(da as int, a as int)),
{
    let ghost s = t@.subrange(da as int, a as int);
    if da == a {
        return false;
    }
    let mut k: usize = da;
    let mut punto_visto = false;
    let ghost mut idx_punto: int = 0;
    let mut cifra_vista = false;
    let ghost mut idx_cifra: int = 0;
    while k < a
        invariant
            da <= k <= a <= t.len(),
            s == t@.subrange(da as int, a as int),
            forall|j: int| da <= j < k ==> (cifra(t@[j]) || t@[j] == ('.' as u8)),
            punto_visto ==> da <= idx_punto < k && t@[idx_punto] == ('.' as u8),
            !punto_visto ==> forall|j: int| da <= j < k ==> t@[j] != ('.' as u8),
            punto_visto ==> forall|j: int| da <= j < k && t@[j] == ('.' as u8) ==> j == idx_punto,
            cifra_vista ==> da <= idx_cifra < k && cifra(t@[idx_cifra]),
            !cifra_vista ==> forall|j: int| da <= j < k ==> !cifra(t@[j]),
        decreases a - k,
    {
        let b = t[k];
        if b >= ('0' as u8) && b <= ('9' as u8) {
            if !cifra_vista {
                cifra_vista = true;
                proof {
                    idx_cifra = k as int;
                }
            }
        } else if b == ('.' as u8) {
            if punto_visto {
                assert(s[idx_punto - da] == ('.' as u8) && s[k - da] == ('.' as u8));
                assert(!al_piu_un_punto(s));
                return false;
            }
            punto_visto = true;
            proof {
                idx_punto = k as int;
            }
        } else {
            assert(s[k - da] == t@[k as int]);
            assert(!solo_cifre_o_punto(s));
            return false;
        }
        k += 1;
    }
    assert forall|i: int| 0 <= i < s.len() implies (cifra(s[i]) || s[i] == ('.' as u8)) by {
        assert(s[i] == t@[da + i]);
    }
    assert forall|i: int, j: int|
        0 <= i < s.len() && 0 <= j < s.len() && s[i] == ('.' as u8) && s[j] == ('.' as u8) implies i
        == j by {
        assert(s[i] == t@[da + i]);
        assert(s[j] == t@[da + j]);
    }
    if cifra_vista {
        assert(s[idx_cifra - da] == t@[idx_cifra]);
        assert(contiene_cifra(s));
        true
    } else {
        assert forall|i: int| 0 <= i < s.len() implies !cifra(s[i]) by {
            assert(s[i] == t@[da + i]);
        }
        false
    }
}

/// La coda di `t` da `da` e' un esponente valido.
fn esponente_ok(t: &Vec<u8>, da: usize) -> (r: bool)
    requires
        da <= t.len(),
    ensures
        r == esponente_valido(t@.skip(da as int)),
{
    let ghost s = t@.skip(da as int);
    let inizio: usize = if da < t.len() && (t[da] == ('+' as u8) || t[da] == ('-' as u8)) {
        da + 1
    } else {
        da
    };
    let ghost corpo = if s.len() > 0 && segno(s[0]) {
        s.skip(1)
    } else {
        s
    };
    proof {
        assert(corpo =~= t@.skip(inizio as int));
    }
    if inizio == t.len() {
        assert(corpo.len() == 0);
        return false;
    }
    let mut k: usize = inizio;
    while k < t.len()
        invariant
            inizio <= k <= t.len(),
            corpo =~= t@.skip(inizio as int),
            esponente_valido(t@.skip(da as int)) == tutte_cifre(corpo),
            forall|j: int| inizio <= j < k ==> cifra(t@[j]),
        decreases t.len() - k,
    {
        let b = t[k];
        if !(b >= ('0' as u8) && b <= ('9' as u8)) {
            assert(corpo[k - inizio] == t@[k as int]);
            assert(!tutte_cifre(corpo));
            return false;
        }
        k += 1;
    }
    assert forall|i: int| 0 <= i < corpo.len() implies cifra(corpo[i]) by {
        assert(corpo[i] == t@[inizio + i]);
    }
    true
}

/// Il vettore e' un token numerico in virgola mobile.
pub fn e_token_numerico(t: &Vec<u8>) -> (r: bool)
    ensures
        r == token_numerico(t@),
{
    let n = t.len();
    let inizio: usize = if n > 0 && (t[0] == ('+' as u8) || t[0] == ('-' as u8)) {
        1
    } else {
        0
    };
    let ghost corpo = corpo_token(t@);
    proof {
        assert(corpo =~= t@.skip(inizio as int));
    }
    if e_infinito(t, inizio) || e_non_numero(t, inizio) {
        return true;
    }
    let mut i: usize = inizio;
    while i < n && !(t[i] == ('e' as u8) || t[i] == ('E' as u8))
        invariant
            inizio <= i <= n,
            n == t.len(),
            forall|j: int| inizio <= j < i ==> !lettera_esponente(t@[j]),
        decreases n - i,
    {
        i += 1;
    }
    if i == n {
        let ok = mantissa_ok(t, inizio, n);
        proof {
            assert(corpo =~= t@.subrange(inizio as int, n as int));
            if !ok {
                assert forall|j: int|
                    !(0 <= j < corpo.len() && lettera_esponente(corpo[j]) && mantissa_valida(
                        corpo.take(j),
                    ) && esponente_valido(corpo.skip(j + 1))) by {
                    if 0 <= j < corpo.len() {
                        assert(corpo[j] == t@[inizio + j]);
                    }
                }
            }
        }
        ok
    } else {
        let ok1 = mantissa_ok(t, inizio, i);
        let ok = ok1 && esponente_ok(t, i + 1);
        proof {
            let ghost ie = i - inizio;
            assert(corpo[ie] == t@[i as int]);
            assert(corpo.take(ie) =~= t@.subrange(inizio as int, i as int));
            assert(corpo.skip(ie + 1) =~= t@.skip(i + 1 as int));
            if ok {
                assert(lettera_esponente(corpo[ie]) && mantissa_valida(corpo.take(ie))
                    && esponente_valido(corpo.skip(ie + 1)));
                assert(numero_valido(corpo));
            } else {
                assert(!cifra(t@[i as int]) && t@[i as int] != ('.' as u8));
                assert(!mantissa_valida(corpo)) by {
                    assert(corpo[ie] == t@[i as int]);
                }
                assert forall|j: int|
                    !(0 <= j < corpo.len() && lettera_esponente(corpo[j]) && mantissa_valida(
                        corpo.take(j),
                    ) && esponente_valido(corpo.skip(j + 1))) by {
                    if 0 <= j < corpo.len() && lettera_esponente(corpo[j]) {
                        if j < ie {
                            assert(corpo[j] == t@[inizio + j]);
                            assert(false);
                        } else if j == ie {
                        } else {
                            if mantissa_valida(corpo.take(j)) {
                                assert(corpo.take(j)[ie] == corpo[ie]);
                                assert(false);
                            }
                        }
                    }
                }
                assert(!numero_valido(corpo));
            }
        }
        ok
    }
}

/// Il vettore e' un token numerico dal valore scritto maggiore di zero.
pub fn e_token_positivo(t: &Vec<u8>) -> (r: bool)
    ensures
        r == token_positivo(t@),
{
    if !e_token_numerico(t) {
        return false;
    }
    let n = t.len();
    if n > 0 && t[0] == ('-' as u8) {
        return false;
    }
    let inizio: usize = if n > 0 && (t[0] == ('+' as u8) || t[0] == ('-' as u8)) {
        1
    } else {
        0
    };
    let ghost corpo = corpo_token(t@);
    proof {
        assert(corpo =~= t@.skip(inizio as int));
    }
    if e_infinito(t, inizio) {
        return true;
    }
    if e_non_numero(t, inizio) {
        proof {
            assert(minuscole(corpo).len() == 3);
            assert(corpo.len() == 3);
            assert(minuscole(corpo)[0] == ('n' as u8));
            assert(minuscola(corpo[0]) == ('n' as u8));
            assert(!cifra(corpo[0]) && corpo[0] != ('.' as u8));
            assert(!mantissa_valida(corpo));
            assert forall|j: int|
                !(0 <= j < corpo.len() && lettera_esponente(corpo[j]) && mantissa_valida(
                    corpo.take(j),
                ) && esponente_valido(corpo.skip(j + 1))) by {
                if 0 <= j < corpo.len() && mantissa_valida(corpo.take(j)) {
                    assert(corpo.take(j)[0] == corpo[0]);
                    assert(false);
                }
            }
            assert(!numero_valido(corpo));
        }
        return false;
    }
    let mut k: usize = inizio;
    while k < n && !(t[k] == ('e' as u8) || t[k] == ('E' as u8))
        invariant
            inizio <= k <= n,
            n == t.len(),
            corpo == t@.skip(inizio as int),
            token_numerico(t@),
            !token_speciale(corpo),
            corpo == corpo_token(t@),
            !(t@.len() > 0 && t@[0] == ('-' as u8)),
            forall|j: int| inizio <= j < k ==> !lettera_esponente(t@[j]),
            forall|j: int| inizio <= j < k ==> !cifra_non_zero(t@[j]),
        decreases n - k,
    {
        let b = t[k];
        if b >= ('1' as u8) && b <= ('9' as u8) {
            proof {
                let ghost ik = k - inizio;
                assert(corpo[ik] == t@[k as int]);
                assert forall|j: int| 0 <= j < ik implies !lettera_esponente(corpo[j]) by {
                    assert(corpo[j] == t@[inizio + j]);
                }
                assert(numero_non_zero(corpo));
            }
            return true;
        }
        k += 1;
    }
    proof {
        assert forall|i: int|
            !(0 <= i < corpo.len() && cifra_non_zero(corpo[i]) && (forall|j: int|
                0 <= j < i ==> !lettera_esponente(corpo[j]))) by {
            if 0 <= i < corpo.len() && cifra_non_zero(corpo[i]) {
                assert(corpo[i] == t@[inizio + i]);
                if inizio + i < k {
                } else {
                    assert(k < n && lettera_esponente(t@[k as int]));
                    assert(corpo[k - inizio] == t@[k as int]);
                }
            }
        }
        assert(!numero_non_zero(corpo));
        assert(!token_speciale_positivo(corpo));
    }
    false
}

} // verus!

