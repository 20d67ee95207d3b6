//! Le funzioni di attivazione della rete: varianti chiuse, nomi, sigle e
//! codici testuali con cui compaiono nel formato di salvataggio.
//!
//! Il parametro della variante con perdita resta il suo token testuale
//! esatto, cosi' come sta nel formato di salvataggio.
use crate::dividi::divisione;
use crate::dividi::dividi_byte;
use crate::dividi::inizia_con;
use crate::dividi::inizia_con_esegui;
use crate::dividi::viste;
use crate::errori::ErroreRete;
use crate::testo::e_token_numerico;
use crate::testo::token_numerico;
use crate::testo::uguali_byte;
use vstd::prelude::*;

verus! {

/// Il testo `Sigmoide` come sequenza di byte.
pub open spec fn nome_sigmoide() -> Seq<u8> {
    seq![
        ('S' as u8),
        ('i' as u8),
        ('g' as u8),
        ('m' as u8),
        ('o' as u8),
        ('i' as u8),
        ('d' as u8),
        ('e' as u8),
    ]
}

/// Il testo `Rectified Linear Unit` come sequenza di byte.
pub open spec fn nome_relu() -> Seq<u8> {
    seq![
        ('R' as u8),
        ('e' as u8),
        ('c' as u8),
        ('t' as u8),
        ('i' as u8),
        ('f' as u8),
        ('i' as u8),
        ('e' as u8),
        ('d' as u8),
        (' ' as u8),
        ('L' as u8),
        ('i' as u8),
        ('n' as u8),
        ('e' as u8),
        ('a' as u8),
        ('r' as u8),
        (' ' as u8),
        ('U' as u8),
        ('n' as u8),
        ('i' as u8),
        ('t' as u8),
    ]
}

/// Il testo `Leaky Rectified Linear Unit` come sequenza di byte.
pub open spec fn nome_leaky_relu() -> Seq<u8> {
    seq![
        ('L' as u8),
        ('e' as u8),
        ('a' as u8),
        ('k' as u8),
        ('y' as u8),
        (' ' as u8),
        ('R' as u8),
        ('e' as u8),
        ('c' as u8),
        ('t' as u8),
        ('i' as u8),
        ('f' as u8),
        ('i' as u8),
        ('e' as u8),
        ('d' as u8),
        (' ' as u8),
        ('L' as u8),
        ('i' as u8),
        ('n' as u8),
        ('e' as u8),
        ('a' as u8),
        ('r' as u8),
        (' ' as u8),
        ('U' as u8),
        ('n' as u8),
        ('i' as u8),
        ('t' as u8),
    ]
}

/// Il testo `Tangente Iperbolica` come sequenza di byte.
pub open spec fn nome_tanh() -> Seq<u8> {
    seq![
        ('T' as u8),
        ('a' as u8),
        ('n' as u8),
        ('g' as u8),
        ('e' as u8),
        ('n' as u8),
        ('t' as u8),
        ('e' as u8),
        (' ' as u8),
        ('I' as u8),
        ('p' as u8),
        ('e' as u8),
        ('r' as u8),
        ('b' as u8),
        ('o' as u8),
        ('l' as u8),
        ('i' as u8),
        ('c' as u8),
        ('a' as u8),
    ]
}

/// Il testo `Softplus` come sequenza di byte.
pub open spec fn nome_softplus() -> Seq<u8> {
    seq![
        ('S' as u8),
        ('o' as u8),
        ('f' as u8),
        ('t' as u8),
        ('p' as u8),
        ('l' as u8),
        ('u' as u8),
        ('s' as u8),
    ]
}

/// Il testo `Swish` come sequenza di byte.
pub open spec fn nome_swish() -> Seq<u8> {
    seq![
        ('S' as u8),
        ('w' as u8),
        ('i' as u8),
        ('s' as u8),
        ('h' as u8),
    ]
}

/// Il testo `Nessua Funzione di Attivazione` come sequenza di byte.
pub open spec fn nome_nessuna() -> Seq<u8> {
    seq![
        ('N' as u8),
        ('e' as u8),
        ('s' as u8),
        ('s' as u8),
        ('u' as u8),
        ('a' as u8),
        (' ' as u8),
        ('F' as u8),
        ('u' as u8),
        ('n' as u8),
        ('z' as u8),
        ('i' as u8),
        ('o' as u8),
        ('n' as u8),
        ('e' as u8),
        (' ' as u8),
        ('d' as u8),
        ('i' as u8),
        (' ' as u8),
        ('A' as u8),
        ('t' as u8),
        ('t' as u8),
        ('i' as u8),
        ('v' as u8),
        ('a' as u8),
        ('z' as u8),
        ('i' as u8),
        ('o' as u8),
        ('n' as u8),
        ('e' as u8),
    ]
}

/// Il testo `Lineare` come sequenza di byte.
pub open spec fn nome_lineare() -> Seq<u8> {
    seq![
        ('L' as u8),
        ('i' as u8),
        ('n' as u8),
        ('e' as u8),
        ('a' as u8),
        ('r' as u8),
        ('e' as u8),
    ]
}

/// Il testo `Sigmoide` come sequenza di byte.
pub open spec fn sigla_sigmoide() -> Seq<u8> {
    seq![
        ('S' as u8),
        ('i' as u8),
        ('g' as u8),
        ('m' as u8),
        ('o' as u8),
        ('i' as u8),
        ('d' as u8),
        ('e' as u8),
    ]
}

/// Il testo `ReLU` come sequenza di byte.
pub open spec fn sigla_relu() -> Seq<u8> {
    seq![
        ('R' as u8),
        ('e' as u8),
        ('L' as u8),
        ('U' as u8),
    ]
}

/// Il testo `LeakyReLU` come sequenza di byte.
pub open spec fn sigla_leaky_relu() -> Seq<u8> {
    seq![
        ('L' as u8),
        ('e' as u8),
        ('a' as u8),
        ('k' as u8),
        ('y' as u8),
        ('R' as u8),
        ('e' as u8),
        ('L' as u8),
        ('U' as u8),
    ]
}

/// Il testo `Tanh` come sequenza di byte.
pub open spec fn sigla_tanh() -> Seq<u8> {
    seq![
        ('T' as u8),
        ('a' as u8),
        ('n' as u8),
        ('h' as u8),
    ]
}

/// Il testo `Softplus` come sequenza di byte.
pub open spec fn sigla_softplus() -> Seq<u8> {
    seq![
        ('S' as u8),
        ('o' as u8),
        ('f' as u8),
        ('t' as u8),
        ('p' as u8),
        ('l' as u8),
        ('u' as u8),
        ('s' as u8),
    ]
}

/// Il testo `Swish` come sequenza di byte.
pub open spec fn sigla_swish() -> Seq<u8> {
    seq![
        ('S' as u8),
        ('w' as u8),
        ('i' as u8),
        ('s' as u8),
        ('h' as u8),
    ]
}

/// Il testo `Null` come sequenza di byte.
pub open spec fn sigla_nessuna() -> Seq<u8> {
    seq![
        ('N' as u8),
        ('u' as u8),
        ('l' as u8),
        ('l' as u8),
    ]
}

/// Il testo `Lineare` come sequenza di byte.
pub open spec fn sigla_lineare() -> Seq<u8> {
    seq![
        ('L' as u8),
        ('i' as u8),
        ('n' as u8),
        ('e' as u8),
        ('a' as u8),
        ('r' as u8),
        ('e' as u8),
    ]
}

/// Il testo `Sigmoide` come vettore di byte.
pub fn vettore_nome_sigmoide() -> (r: Vec<u8>)
    ensures
        r@ == nome_sigmoide(),
{
    let mut r: Vec<u8> = Vec::new();
    r.push('S' as u8);
    r.push('i' as u8);
    r.push('g' as u8);
    r.push('m' as u8);
    r.push('o' as u8);
    r.push('i' as u8);
    r.push('d' as u8);
    r.push('e' as u8);
    assert(r@ =~= nome_sigmoide());
    r
}

/// Il testo `Rectified Linear Unit` come vettore di byte.
pub fn vettore_nome_relu() -> (r: Vec<u8>)
    ensures
        r@ == nome_relu(),
{
    let mut r: Vec<u8> = Vec::new();
    r.push('R' as u8);
    r.push('e' as u8);
    r.push('c' as u8);
    r.push('t' as u8);
    r.push('i' as u8);
    r.push('f' as u8);
    r.push('i' as u8);
    r.push('e' as u8);
    r.push('d' as u8);
    r.push(' ' as u8);
    r.push('L' as u8);
    r.push('i' as u8);
    r.push('n' as u8);
    r.push('e' as u8);
    r.push('a' as u8);
    r.push('r' as u8);
    r.push(' ' as u8);
    r.push('U' as u8);
    r.push('n' as u8);
    r.push('i' as u8);
    r.push('t' as u8);
    assert(r@ =~= nome_relu());
    r
}

/// Il testo `Leaky Rectified Linear Unit` come vettore di byte.
pub fn vettore_nome_leaky_relu() -> (r: Vec<u8>)
    ensures
        r@ == nome_leaky_relu(),
{
    let mut r: Vec<u8> = Vec::new();
    r.push('L' as u8);
    r.push('e' as u8);
    r.push('a' as u8);
    r.push('k' as u8);
    r.push('y' as u8);
    r.push(' ' as u8);
    r.push('R' as u8);
    r.push('e' as u8);
    r.push('c' as u8);
    r.push('t' as u8);
    r.push('i' as u8);
    r.push('f' as u8);
    r.push('i' as u8);
    r.push('e' as u8);
    r.push('d' as u8);
    r.push(' ' as u8);
    r.push('L' as u8);
    r.push('i' as u8);
    r.push('n' as u8);
    r.push('e' as u8);
    r.push('a' as u8);
    r.push('r' as u8);
    r.push(' ' as u8);
    r.push('U' as u8);
    r.push('n' as u8);
    r.push('i' as u8);
    r.push('t' as u8);
    assert(r@ =~= nome_leaky_relu());
    r
}

/// Il testo `Tangente Iperbolica` come vettore di byte.
pub fn vettore_nome_tanh() -> (r: Vec<u8>)
    ensures
        r@ == nome_tanh(),
{
    let mut r: Vec<u8> = Vec::new();
    r.push('T' as u8);
    r.push('a' as u8);
    r.push('n' as u8);
    r.push('g' as u8);
    r.push('e' as u8);
    r.push('n' as u8);
    r.push('t' as u8);
    r.push('e' as u8);
    r.push(' ' as u8);
    r.push('I' as u8);
    r.push('p' as u8);
    r.push('e' as u8);
    r.push('r' as u8);
    r.push('b' as u8);
    r.push('o' as u8);
    r.push('l' as u8);
    r.push('i' as u8);
    r.push('c' as u8);
    r.push('a' as u8);
    assert(r@ =~= nome_tanh());
    r
}

/// Il testo `Softplus` come vettore di byte.
pub fn vettore_nome_softplus() -> (r: Vec<u8>)
    ensures
        r@ == nome_softplus(),
{
    let mut r: Vec<u8> = Vec::new();
    r.push('S' as u8);
    r.push('o' as u8);
    r.push('f' as u8);
    r.push('t' as u8);
    r.push('p' as u8);
    r.push('l' as u8);
    r.push('u' as u8);
    r.push('s' as u8);
    assert(r@ =~= nome_softplus());
    r
}

/// Il testo `Swish` come vettore di byte.
pub fn vettore_nome_swish() -> (r: Vec<u8>)
    ensures
        r@ == nome_swish(),
{
    let mut r: Vec<u8> = Vec::new();
    r.push('S' as u8);
    r.push('w' as u8);
    r.push('i' as u8);
    r.push('s' as u8);
    r.push('h' as u8);
    assert(r@ =~= nome_swish());
    r
}

/// Il testo `Nessua Funzione di Attivazione` come vettore di byte.
pub fn vettore_nome_nessuna() -> (r: Vec<u8>)
    ensures
        r@ == nome_nessuna(),
{
    let mut r: Vec<u8> = Vec::new();
    r.push('N' as u8);
    r.push('e' as u8);
    r.push('s' as u8);
    r.push('s' as u8);
    r.push('u' as u8);
    r.push('a' as u8);
    r.push(' ' as u8);
    r.push('F' as u8);
    r.push('u' as u8);
    r.push('n' as u8);
    r.push('z' as u8);
    r.push('i' as u8);
    r.push('o' as u8);
    r.push('n' as u8);
    r.push('e' as u8);
    r.push(' ' as u8);
    r.push('d' as u8);
    r.push('i' as u8);
    r.push(' ' as u8);
    r.push('A' as u8);
    r.push('t' as u8);
    r.push('t' as u8);
    r.push('i' as u8);
    r.push('v' as u8);
    r.push('a' as u8);
    r.push('z' as u8);
    r.push('i' as u8);
    r.push('o' as u8);
    r.push('n' as u8);
    r.push('e' as u8);
    assert(r@ =~= nome_nessuna());
    r
}

/// Il testo `Lineare` come vettore di byte.
pub fn vettore_nome_lineare() -> (r: Vec<u8>)
    ensures
        r@ == nome_lineare(),
{
    let mut r: Vec<u8> = Vec::new();
    r.push('L' as u8);
    r.push('i' as u8);
    r.push('n' as u8);
    r.push('e' as u8);
    r.push('a' as u8);
    r.push('r' as u8);
    r.push('e' as u8);
    assert(r@ =~= nome_lineare());
    r
}

/// Il testo `Sigmoide` come vettore di byte.
pub fn vettore_sigla_sigmoide() -> (r: Vec<u8>)
    ensures
        r@ == sigla_sigmoide(),
{
    let mut r: Vec<u8> = Vec::new();
    r.push('S' as u8);
    r.push('i' as u8);
    r.push('g' as u8);
    r.push('m' as u8);
    r.push('o' as u8);
    r.push('i' as u8);
    r.push('d' as u8);
    r.push('e' as u8);
    assert(r@ =~= sigla_sigmoide());
    r
}

/// Il testo `ReLU` come vettore di byte.
pub fn vettore_sigla_relu() -> (r: Vec<u8>)
    ensures
        r@ == sigla_relu(),
{
    let mut r: Vec<u8> = Vec::new();
    r.push('R' as u8);
    r.push('e' as u8);
    r.push('L' as u8);
    r.push('U' as u8);
    assert(r@ =~= sigla_relu());
    r
}

/// Il testo `LeakyReLU` come vettore di byte.
pub fn vettore_sigla_leaky_relu() -> (r: Vec<u8>)
    ensures
        r@ == sigla_leaky_relu(),
{
    let mut r: Vec<u8> = Vec::new();
    r.push('L' as u8);
    r.push('e' as u8);
    r.push('a' as u8);
    r.push('k' as u8);
    r.push('y' as u8);
    r.push('R' as u8);
    r.push('e' as u8);
    r.push('L' as u8);
    r.push('U' as u8);
    assert(r@ =~= sigla_leaky_relu());
    r
}

/// Il testo `Tanh` come vettore di byte.
pub fn vettore_sigla_tanh() -> (r: Vec<u8>)
    ensures
        r@ == sigla_tanh(),
{
    let mut r: Vec<u8> = Vec::new();
    r.push('T' as u8);
    r.push('a' as u8);
    r.push('n' as u8);
    r.push('h' as u8);
    assert(r@ =~= sigla_tanh());
    r
}

/// Il testo `Softplus` come vettore di byte.
pub fn vettore_sigla_softplus() -> (r: Vec<u8>)
    ensures
        r@ == sigla_softplus(),
{
    let mut r: Vec<u8> = Vec::new();
    r.push('S' as u8);
    r.push('o' as u8);
    r.push('f' as u8);
    r.push('t' as u8);
    r.push('p' as u8);
    r.push('l' as u8);
    r.push('u' as u8);
    r.push('s' as u8);
    assert(r@ =~= sigla_softplus());
    r
}

/// Il testo `Swish` come vettore di byte.
pub fn vettore_sigla_swish() -> (r: Vec<u8>)
    ensures
        r@ == sigla_swish(),
{
    let mut r: Vec<u8> = Vec::new();
    r.push('S' as u8);
    r.push('w' as u8);
    r.push('i' as u8);
    r.push('s' as u8);
    r.push('h' as u8);
    assert(r@ =~= sigla_swish());
    r
}

/// Il testo `Null` come vettore di byte.
pub fn vettore_sigla_nessuna() -> (r: Vec<u8>)
    ensures
        r@ == sigla_nessuna(),
{
    let mut r: Vec<u8> = Vec::new();
    r.push('N' as u8);
    r.push('u' as u8);
    r.push('l' as u8);
    r.push('l' as u8);
    assert(r@ =~= sigla_nessuna());
    r
}

/// Il testo `Lineare` come vettore di byte.
pub fn vettore_sigla_lineare() -> (r: Vec<u8>)
    ensures
        r@ == sigla_lineare(),
{
    let mut r: Vec<u8> = Vec::new();
    r.push('L' as u8);
    r.push('i' as u8);
    r.push('n' as u8);
    r.push('e' as u8);
    r.push('a' as u8);
    r.push('r' as u8);
    r.push('e' as u8);
    assert(r@ =~= sigla_lineare());
    r
}

/// Immagine in specifica di una funzione di attivazione: la variante con
/// perdita porta il token testuale del suo parametro.
pub enum FunzioneVista {
    Nessuna,
    Sigmoide,
    ReLU,
    LeakyReLU(Seq<u8>),
    Tanh,
    Softplus,
    Swish,
    Lineare,
}

/// Funzione di attivazione di uno strato: insieme chiuso di varianti.
///
/// La variante con perdita conserva il parametro come token testuale in
/// virgola mobile, cosi' come compare nel formato di salvataggio.
#[derive(Clone, Debug)]
pub enum FunzioneAttivazione {
    Nessuna,
    Sigmoide,
    ReLU,
    LeakyReLU { alfa: Vec<u8> },
    Tanh,
    Softplus,
    Swish,
    Lineare,
}

impl View for FunzioneAttivazione {
    type V = FunzioneVista;

    open spec fn view(&self) -> FunzioneVista {
        match self {
            FunzioneAttivazione::Nessuna => FunzioneVista::Nessuna,
            FunzioneAttivazione::Sigmoide => FunzioneVista::Sigmoide,
            FunzioneAttivazione::ReLU => FunzioneVista::ReLU,
            FunzioneAttivazione::LeakyReLU { alfa } => FunzioneVista::LeakyReLU(alfa@),
            FunzioneAttivazione::Tanh => FunzioneVista::Tanh,
            FunzioneAttivazione::Softplus => FunzioneVista::Softplus,
            FunzioneAttivazione::Swish => FunzioneVista::Swish,
            FunzioneAttivazione::Lineare => FunzioneVista::Lineare,
        }
    }
}

/// La funzione e' ben formata: il parametro della variante con perdita
/// e' un token numerico.
pub open spec fn funzione_valida(f: FunzioneVista) -> bool {
    match f {
        FunzioneVista::LeakyReLU(alfa) => token_numerico(alfa),
        _ => true,
    }
}

/// Il nome per esteso della funzione.
pub open spec fn nome_di(f: FunzioneVista) -> Seq<u8> {
    match f {
        FunzioneVista::Nessuna => nome_nessuna(),
        FunzioneVista::Sigmoide => nome_sigmoide(),
        FunzioneVista::ReLU => nome_relu(),
        FunzioneVista::LeakyReLU(_) => nome_leaky_relu(),
        FunzioneVista::Tanh => nome_tanh(),
        FunzioneVista::Softplus => nome_softplus(),
        FunzioneVista::Swish => nome_swish(),
        FunzioneVista::Lineare => nome_lineare(),
    }
}

/// La sigla breve della funzione, senza il parametro.
pub open spec fn sigla_di(f: FunzioneVista) -> Seq<u8> {
    match f {
        FunzioneVista::Nessuna => sigla_nessuna(),
        FunzioneVista::Sigmoide => sigla_sigmoide(),
        FunzioneVista::ReLU => sigla_relu(),
        FunzioneVista::LeakyReLU(_) => sigla_leaky_relu(),
        FunzioneVista::Tanh => sigla_tanh(),
        FunzioneVista::Softplus => sigla_softplus(),
        FunzioneVista::Swish => sigla_swish(),
        FunzioneVista::Lineare => sigla_lineare(),
    }
}

/// Il codice con cui la funzione compare nel formato di salvataggio:
/// la sigla, seguita per la variante con perdita dal parametro dopo
/// un trattino basso.
pub open spec fn codice_di(f: FunzioneVista) -> Seq<u8> {
    match f {
        FunzioneVista::LeakyReLU(alfa) => sigla_leaky_relu() + seq![('_' as u8)] + alfa,
        _ => sigla_di(f),
    }
}

/// Il parametro testuale della funzione: zero per ogni variante senza
/// parametro.
pub open spec fn alfa_di(f: FunzioneVista) -> Seq<u8> {
    match f {
        FunzioneVista::LeakyReLU(alfa) => alfa,
        _ => seq![('0' as u8)],
    }
}

/// Lettura di un codice testuale: il prefisso della variante con perdita
/// pretende un parametro numerico dopo il trattino basso; ogni altra sigla
/// sconosciuta scade nella variante neutra.
pub open spec fn analizza_codice_spec(t: Seq<u8>) -> Result<FunzioneVista, ErroreRete> {
    if inizia_con(t, sigla_leaky_relu() + seq![('_' as u8)]) {
        let pezzi = divisione(t, '_' as u8);
        if pezzi.len() >= 2 && token_numerico(pezzi[1]) {
            Ok(FunzioneVista::LeakyReLU(pezzi[1]))
        } else {
            Err(ErroreRete::TokenNonNumerico)
        }
    } else if t == sigla_sigmoide() {
        Ok(FunzioneVista::Sigmoide)
    } else if t == sigla_relu() {
        Ok(FunzioneVista::ReLU)
    } else if t == sigla_tanh() {
        Ok(FunzioneVista::Tanh)
    } else if t == sigla_softplus() {
        Ok(FunzioneVista::Softplus)
    } else if t == sigla_swish() {
        Ok(FunzioneVista::Swish)
    } else if t == sigla_lineare() {
        Ok(FunzioneVista::Lineare)
    } else {
        Ok(FunzioneVista::Nessuna)
    }
}

impl FunzioneAttivazione {
    /// Il nome per esteso della funzione.
    pub fn nome(&self) -> (r: Vec<u8>)
        ensures
            r@ == nome_di(self@),
    {
        match self {
            FunzioneAttivazione::Nessuna => vettore_nome_nessuna(),
            FunzioneAttivazione::Sigmoide => vettore_nome_sigmoide(),
            FunzioneAttivazione::ReLU => vettore_nome_relu(),
            FunzioneAttivazione::LeakyReLU { .. } => vettore_nome_leaky_relu(),
            FunzioneAttivazione::Tanh => vettore_nome_tanh(),
            FunzioneAttivazione::Softplus => vettore_nome_softplus(),
            FunzioneAttivazione::Swish => vettore_nome_swish(),
            FunzioneAttivazione::Lineare => vettore_nome_lineare(),
        }
    }

    /// La sigla breve della funzione, senza il parametro.
    pub fn sigla(&self) -> (r: Vec<u8>)
        ensures
            r@ == sigla_di(self@),
    {
        match self {
            FunzioneAttivazione::Nessuna => vettore_sigla_nessuna(),
            FunzioneAttivazione::Sigmoide => vettore_sigla_sigmoide(),
            FunzioneAttivazione::ReLU => vettore_sigla_relu(),
            FunzioneAttivazione::LeakyReLU { .. } => vettore_sigla_leaky_relu(),
            FunzioneAttivazione::Tanh => vettore_sigla_tanh(),
            FunzioneAttivazione::Softplus => vettore_sigla_softplus(),
            FunzioneAttivazione::Swish => vettore_sigla_swish(),
            FunzioneAttivazione::Lineare => vettore_sigla_lineare(),
        }
    }

    /// Il codice completo per il formato di salvataggio.
    pub fn codice(&self) -> (r: Vec<u8>)
        ensures
            r@ == codice_di(self@),
    {
        match self {
            FunzioneAttivazione::LeakyReLU { alfa } => {
                let mut r = vettore_sigla_leaky_relu();
                r.push('_' as u8);
                let mut i: usize = 0;
                while i < alfa.len()
                    invariant
                        i <= alfa.len(),
                        r@ == sigla_leaky_relu() + seq![('_' as u8)] + alfa@.take(i as int),
                    decreases alfa.len() - i,
                {
                    r.push(alfa[i]);
                    proof {
                        assert(alfa@.take(i + 1) =~= alfa@.take(i as int).push(alfa@[i as int]));
                        assert(r@ =~= sigla_leaky_relu() + seq![('_' as u8)] + alfa@.take(i + 1));
                    }
                    i += 1;
                }
                proof {
                    assert(alfa@.take(alfa@.len() as int) =~= alfa@);
                }
                r
            },
            _ => self.sigla(),
        }
    }

    /// Il parametro testuale della funzione.
    pub fn alfa(&self) -> (r: Vec<u8>)
        ensures
            r@ == alfa_di(self@),
    {
        match self {
            FunzioneAttivazione::LeakyReLU { alfa } => {
                let mut r: Vec<u8> = Vec::new();
                let mut i: usize = 0;
                while i < alfa.len()
                    invariant
                        i <= alfa.len(),
                        r@ == alfa@.take(i as int),
                    decreases alfa.len() - i,
                {
                    r.push(alfa[i]);
                    proof {
                        assert(alfa@.take(i + 1) =~= alfa@.take(i as int).push(alfa@[i as int]));
                    }
                    i += 1;
                }
                proof {
                    assert(alfa@.take(alfa@.len() as int) =~= alfa@);
                }
                r
            },
            _ => {
                let mut r: Vec<u8> = Vec::new();
                r.push('0' as u8);
                assert(r@ =~= seq![('0' as u8)]);
                r
            },
        }
    }

    /// Legge il codice testuale di una funzione di attivazione.
    pub fn analizza_codice(t: &Vec<u8>) -> (r: Result<FunzioneAttivazione, ErroreRete>)
        ensures
            match r {
                Ok(f) => analizza_codice_spec(t@) == Ok::<FunzioneVista, ErroreRete>(f@),
                Err(e) => analizza_codice_spec(t@) == Err::<FunzioneVista, ErroreRete>(e),
            },
    {
        let mut prefisso = vettore_sigla_leaky_relu();
        prefisso.push('_' as u8);
        proof {
            assert(prefisso@ =~= sigla_leaky_relu() + seq![('_' as u8)]);
        }
        if inizia_con_esegui(t, &prefisso) {
            let pezzi = dividi_byte(t, '_' as u8);
            proof {
                assert(viste(pezzi@).len() == divisione(t@, '_' as u8).len());
            }
            if pezzi.len() >= 2 {
                let alfa = sotto_vettore_intero(&pezzi[1]);
                proof {
                    assert(viste(pezzi@)[1] == pezzi@[1]@);
                }
                if e_token_numerico(&alfa) {
                    return Ok(FunzioneAttivazione::LeakyReLU { alfa });
                } else {
                    return Err(ErroreRete::TokenNonNumerico);
                }
            } else {
                return Err(ErroreRete::TokenNonNumerico);
            }
        }
        let sigmoide = vettore_sigla_sigmoide();
        if uguali_byte(t, &sigmoide) {
            return Ok(FunzioneAttivazione::Sigmoide);
        }
        let relu = vettore_sigla_relu();
        if uguali_byte(t, &relu) {
            return Ok(FunzioneAttivazione::ReLU);
        }
        let tanh = vettore_sigla_tanh();
        if uguali_byte(t, &tanh) {
            return Ok(FunzioneAttivazione::Tanh);
        }
        let softplus = vettore_sigla_softplus();
        if uguali_byte(t, &softplus) {
            return Ok(FunzioneAttivazione::Softplus);
        }
        let swish = vettore_sigla_swish();
        if uguali_byte(t, &swish) {
            return Ok(FunzioneAttivazione::Swish);
        }
        let lineare = vettore_sigla_lineare();
        if uguali_byte(t, &lineare) {
            return Ok(FunzioneAttivazione::Lineare);
        }
        Ok(FunzioneAttivazione::Nessuna)
    }
}

/// Copia intera di un vettore di byte.
pub fn sotto_vettore_intero(t: &Vec<u8>) -> (r: Vec<u8>)
    ensures
        r@ == t@,
{
    let mut r: Vec<u8> = Vec::new();
    let mut i: usize = 0;
    while i < t.len()
        invariant
            i <= t.len(),
            r@ == t@.take(i as int),
        decreases t.len() - i,
    {
        r.push(t[i]);
        proof {
            assert(t@.take(i + 1) =~= t@.take(i as int).push(t@[i as int]));
        }
        i += 1;
    }
    proof {
        assert(t@.take(t@.len() as int) =~= t@);
    }
    r
}

/// La funzione sigmoide, come tipo a se'.
#[derive(Clone)]
pub struct Sigmoide;

impl Sigmoide {
    /// Il nome per esteso della funzione.
    pub fn nome(&self) -> (r: Vec<u8>)
        ensures
            r@ == nome_sigmoide(),
    {
        vettore_nome_sigmoide()
    }

    /// La sigla breve della funzione.
    pub fn sigla(&self) -> (r: Vec<u8>)
        ensures
            r@ == sigla_sigmoide(),
    {
        vettore_sigla_sigmoide()
    }

    /// La funzione come variante dell'insieme chiuso.
    pub fn funzione(&self) -> (r: FunzioneAttivazione)
        ensures
            r@ == FunzioneVista::Sigmoide,
    {
        FunzioneAttivazione::Sigmoide
    }
}

/// La funzione rettificata, come tipo a se'.
#[derive(Clone)]
pub struct ReLU;

impl ReLU {
    /// Il nome per esteso della funzione.
    pub fn nome(&self) -> (r: Vec<u8>)
        ensures
            r@ == nome_relu(),
    {
        vettore_nome_relu()
    }

    /// La sigla breve della funzione.
    pub fn sigla(&self) -> (r: Vec<u8>)
        ensures
            r@ == sigla_relu(),
    {
        vettore_sigla_relu()
    }

    /// La funzione come variante dell'insieme chiuso.
    pub fn funzione(&self) -> (r: FunzioneAttivazione)
        ensures
            r@ == FunzioneVista::ReLU,
    {
        FunzioneAttivazione::ReLU
    }
}

/// La funzione rettificata con perdita, come tipo a se': il parametro e'
/// il suo token testuale.
#[derive(Clone)]
pub struct LeakyReLU {
    pub alfa: Vec<u8>,
}

impl LeakyReLU {
    /// Il nome per esteso della funzione.
    pub fn nome(&self) -> (r: Vec<u8>)
        ensures
            r@ == nome_leaky_relu(),
    {
        vettore_nome_leaky_relu()
    }

    /// La sigla breve della funzione.
    pub fn sigla(&self) -> (r: Vec<u8>)
        ensures
            r@ == sigla_leaky_relu(),
    {
        vettore_sigla_leaky_relu()
    }

    /// La funzione come variante dell'insieme chiuso.
    pub fn funzione(&self) -> (r: FunzioneAttivazione)
        ensures
            r@ == FunzioneVista::LeakyReLU(self.alfa@),
    {
        FunzioneAttivazione::LeakyReLU { alfa: sotto_vettore_intero(&self.alfa) }
    }
}

/// La funzione tangente iperbolica, come tipo a se'.
#[derive(Clone)]
pub struct Tanh;

impl Tanh {
    /// Il nome per esteso della funzione.
    pub fn nome(&self) -> (r: Vec<u8>)
        ensures
            r@ == nome_tanh(),
    {
        vettore_nome_tanh()
    }

    /// La sigla breve della funzione.
    pub fn sigla(&self) -> (r: Vec<u8>)
        ensures
            r@ == sigla_tanh(),
    {
        vettore_sigla_tanh()
    }

    /// La funzione come variante dell'insieme chiuso.
    pub fn funzione(&self) -> (r: FunzioneAttivazione)
        ensures
            r@ == FunzioneVista::Tanh,
    {
        FunzioneAttivazione::Tanh
    }
}

/// La funzione softplus, come tipo a se'.
#[derive(Clone)]
pub struct Softplus;

impl Softplus {
    /// Il nome per esteso della funzione.
    pub fn nome(&self) -> (r: Vec<u8>)
        ensures
            r@ == nome_softplus(),
    {
        vettore_nome_softplus()
    }

    /// La sigla breve della funzione.
    pub fn sigla(&self) -> (r: Vec<u8>)
        ensures
            r@ == sigla_softplus(),
    {
        vettore_sigla_softplus()
    }

    /// La funzione come variante dell'insieme chiuso.
    pub fn funzione(&self) -> (r: FunzioneAttivazione)
        ensures
            r@ == FunzioneVista::Softplus,
    {
        FunzioneAttivazione::Softplus
    }
}

/// La funzione swish, come tipo a se'.
#[derive(Clone)]
pub struct Swish;

impl Swish {
    /// Il nome per esteso della funzione.
    pub fn nome(&self) -> (r: Vec<u8>)
        ensures
            r@ == nome_swish(),
    {
        vettore_nome_swish()
    }

    /// La sigla breve della funzione.
    pub fn sigla(&self) -> (r: Vec<u8>)
        ensures
            r@ == sigla_swish(),
    {
        vettore_sigla_swish()
    }

    /// La funzione come variante dell'insieme chiuso.
    pub fn funzione(&self) -> (r: FunzioneAttivazione)
        ensures
            r@ == FunzioneVista::Swish,
    {
        FunzioneAttivazione::Swish
    }
}

/// La funzione neutra, come tipo a se'.
#[derive(Clone)]
pub struct Nessuna;

impl Nessuna {
    /// Il nome per esteso della funzione.
    pub fn nome(&self) -> (r: Vec<u8>)
        ensures
            r@ == nome_nessuna(),
    {
        vettore_nome_nessuna()
    }

    /// La sigla breve della funzione.
    pub fn sigla(&self) -> (r: Vec<u8>)
        ensures
            r@ == sigla_nessuna(),
    {
        vettore_sigla_nessuna()
    }

    /// La funzione come variante dell'insieme chiuso.
    pub fn funzione(&self) -> (r: FunzioneAttivazione)
        ensures
            r@ == FunzioneVista::Nessuna,
    {
        FunzioneAttivazione::Nessuna
    }
}

/// La funzione lineare, come tipo a se'.
#[derive(Clone)]
pub struct Lineare;

impl Lineare {
    /// Il nome per esteso della funzione.
    pub fn nome(&self) -> (r: Vec<u8>)
        ensures
            r@ == nome_lineare(),
    {
        vettore_nome_lineare()
    }

    /// La sigla breve della funzione.
    pub fn sigla(&self) -> (r: Vec<u8>)
        ensures
            r@ == sigla_lineare(),
    {
        vettore_sigla_lineare()
    }

    /// La funzione come variante dell'insieme chiuso.
    pub fn funzione(&self) -> (r: FunzioneAttivazione)
        ensures
            r@ == FunzioneVista::Lineare,
    {
        FunzioneAttivazione::Lineare
    }
}

} // verus!
