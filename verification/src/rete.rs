//! Il modello dei dati della rete: matrici dei pesi in notazione testuale,
//! lista delle funzioni di attivazione, tasso di apprendimento e topologia,
//! con l'invariante di forma fra matrici e dimensioni degli strati.
use crate::attivazione::funzione_valida;
use crate::attivazione::nome_di;
use crate::attivazione::sigla_di;
use crate::attivazione::sotto_vettore_intero;
use crate::attivazione::FunzioneAttivazione;
use crate::attivazione::FunzioneVista;
use crate::dividi::viste;
use crate::errori::ErroreRete;
use crate::testo::e_token_numerico;
use crate::testo::token_numerico;
use vstd::prelude::*;

verus! {

/// Numero di neuroni e funzione di attivazione di uno strato, come li
/// riceve la costruzione della rete.
#[derive(Clone)]
pub struct Strato {
    pub neuroni: usize,
    pub funzione_attivazione: FunzioneAttivazione,
}

/// Matrice dei pesi fra due strati: i valori sono token testuali in
/// virgola mobile, disposti colonna per colonna.
#[derive(Clone, Debug)]
pub struct Matrice {
    pub righe: usize,
    pub colonne: usize,
    pub pesi: Vec<Vec<u8>>,
}

/// Immagine in specifica di una matrice dei pesi.
pub struct MatriceVista {
    pub righe: int,
    pub colonne: int,
    pub pesi: Seq<Seq<u8>>,
}

impl View for Matrice {
    type V = MatriceVista;

    open spec fn view(&self) -> MatriceVista {
        MatriceVista { righe: self.righe as int, colonne: self.colonne as int, pesi: viste(self.pesi@) }
    }
}

/// Ogni token della sequenza e' un numero in virgola mobile.
pub open spec fn pesi_tutti_numerici(s: Seq<Seq<u8>>) -> bool {
    forall|i: int| 0 <= i < s.len() ==> token_numerico(#[trigger] s[i])
}

/// La matrice e' ben formata: tanti token quante le caselle, tutti numerici.
pub open spec fn matrice_valida(m: MatriceVista) -> bool {
    &&& m.righe >= 0
    &&& m.colonne >= 0
    &&& m.pesi.len() == m.righe * m.colonne
    &&& pesi_tutti_numerici(m.pesi)
}

/// Il token della casella alla riga e colonna date, con i valori disposti
/// colonna per colonna.
pub open spec fn casella(m: MatriceVista, riga: int, colonna: int) -> Seq<u8> {
    m.pesi[colonna * m.righe + riga]
}

impl Matrice {
    /// Costruisce una matrice da token disposti colonna per colonna,
    /// rifiutando conteggi sbagliati e token non numerici.
    pub fn nuova(righe: usize, colonne: usize, pesi: Vec<Vec<u8>>) -> (r: Result<
        Matrice,
        ErroreRete,
    >)
        ensures
            match r {
                Ok(m) => {
                    &&& m@.righe == righe
                    &&& m@.colonne == colonne
                    &&& m@.pesi == viste(pesi@)
                    &&& matrice_valida(m@)
                },
                Err(e) => {
                    ||| (viste(pesi@).len() != righe * colonne && e
                        == ErroreRete::DimensioniIncoerenti)
                    ||| (viste(pesi@).len() == righe * colonne && !pesi_tutti_numerici(
                        viste(pesi@),
                    ) && e == ErroreRete::TokenNonNumerico)
                },
            },
    {
        let quanti = pesi.len();
        let caselle = match righe.checked_mul(colonne) {
            Some(p) => p,
            None => {
                proof {
                    assert(righe * colonne > usize::MAX);
                    assert(viste(pesi@).len() == quanti);
                }
                return Err(ErroreRete::DimensioniIncoerenti);
            },
        };
        if pesi.len() != caselle {
            return Err(ErroreRete::DimensioniIncoerenti);
        }
        let mut i: usize = 0;
        while i < pesi.len()
            invariant
                i <= pesi.len(),
                pesi@.len() == righe * colonne,
                forall|j: int| 0 <= j < i ==> token_numerico(#[trigger] viste(pesi@)[j]),
            decreases pesi.len() - i,
        {
            if !e_token_numerico(&pesi[i]) {
                proof {
                    assert(viste(pesi@)[i as int] == pesi@[i as int]@);
                    assert(!token_numerico(viste(pesi@)[i as int]));
                    assert(!pesi_tutti_numerici(viste(pesi@)));
                    assert(viste(pesi@).len() == righe * colonne);
                }
                return Err(ErroreRete::TokenNonNumerico);
            }
            proof {
                assert(viste(pesi@)[i as int] == pesi@[i as int]@);
            }
            i += 1;
        }
        Ok(Matrice { righe, colonne, pesi })
    }

    /// Numero di righe della matrice.
    pub fn numero_righe(&self) -> (r: usize)
        ensures
            r == self@.righe,
    {
        self.righe
    }

    /// Numero di colonne della matrice.
    pub fn numero_colonne(&self) -> (r: usize)
        ensures
            r == self@.colonne,
    {
        self.colonne
    }

    /// Copia del token alla riga e colonna date.
    pub fn valore(&self, riga: usize, colonna: usize) -> (r: Vec<u8>)
        requires
            matrice_valida(self@),
            riga < self@.righe,
            colonna < self@.colonne,
        ensures
            r@ == casella(self@, riga as int, colonna as int),
    {
        let quanti = self.pesi.len();
        proof {
            assert(0 <= colonna * self@.righe + riga < self@.pesi.len()) by (nonlinear_arith)
                requires
                    0 <= riga < self@.righe,
                    0 <= colonna < self@.colonne,
                    self@.pesi.len() == self@.righe * self@.colonne,
            ;
            assert(self@.pesi.len() == quanti);
        }
        let posto = colonna * self.righe + riga;
        let r = sotto_vettore_intero(&self.pesi[posto]);
        proof {
            assert(viste(self.pesi@)[posto as int] == self.pesi@[posto as int]@);
        }
        r
    }

    /// Copia fedele della matrice.
    pub fn duplica(&self) -> (r: Matrice)
        ensures
            r@ == self@,
    {
        let mut pesi: Vec<Vec<u8>> = Vec::new();
        let mut i: usize = 0;
        while i < self.pesi.len()
            invariant
                i <= self.pesi.len(),
                pesi@.len() == i,
                viste(pesi@) == viste(self.pesi@).take(i as int),
            decreases self.pesi.len() - i,
        {
            let copia = sotto_vettore_intero(&self.pesi[i]);
            pesi.push(copia);
            proof {
                assert(pesi@.len() == i + 1);
                assert(pesi@[i as int]@ == self.pesi@[i as int]@);
                assert forall|j: int| 0 <= j <= i implies viste(pesi@)[j] == viste(
                    self.pesi@,
                ).take(i + 1)[j] by {
                    assert(viste(pesi@)[j] == pesi@[j]@);
                    assert(viste(self.pesi@).take(i + 1)[j] == self.pesi@[j]@);
                }
                assert(viste(pesi@) =~= viste(self.pesi@).take(i + 1));
            }
            i += 1;
        }
        proof {
            assert(viste(self.pesi@).take(self.pesi@.len() as int) =~= viste(self.pesi@));
        }
        let r = Matrice { righe: self.righe, colonne: self.colonne, pesi };
        assert(r@ =~= self@);
        r
    }
}

impl FunzioneAttivazione {
    /// La funzione e' ben formata.
    pub fn valida_esegui(&self) -> (r: bool)
        ensures
            r == funzione_valida(self@),
    {
        match self {
            FunzioneAttivazione::LeakyReLU { alfa } => e_token_numerico(alfa),
            _ => true,
        }
    }

    /// Copia fedele della funzione di attivazione.
    pub fn duplica(&self) -> (r: FunzioneAttivazione)
        ensures
            r@ == self@,
    {
        match self {
            FunzioneAttivazione::Nessuna => FunzioneAttivazione::Nessuna,
            FunzioneAttivazione::Sigmoide => FunzioneAttivazione::Sigmoide,
            FunzioneAttivazione::ReLU => FunzioneAttivazione::ReLU,
            FunzioneAttivazione::LeakyReLU { alfa } => FunzioneAttivazione::LeakyReLU {
                alfa: sotto_vettore_intero(alfa),
            },
            FunzioneAttivazione::Tanh => FunzioneAttivazione::Tanh,
            FunzioneAttivazione::Softplus => FunzioneAttivazione::Softplus,
            FunzioneAttivazione::Swish => FunzioneAttivazione::Swish,
            FunzioneAttivazione::Lineare => FunzioneAttivazione::Lineare,
        }
    }
}

/// Rete neurale a piu' strati: matrici dei pesi, funzioni di attivazione,
/// tasso di apprendimento e dimensioni degli strati.
#[derive(Clone, Debug)]
pub struct ReteNeurale {
    pub strati: Vec<Matrice>,
    pub funzioni_attivazione: Vec<FunzioneAttivazione>,
    pub tasso_apprendimento: Vec<u8>,
    pub dimensioni_strati: Vec<usize>,
}

/// Immagine in specifica di una rete neurale.
pub struct ReteVista {
    pub strati: Seq<MatriceVista>,
    pub funzioni: Seq<FunzioneVista>,
    pub tasso: Seq<u8>,
    pub dimensioni: Seq<usize>,
}

/// Le immagini di una sequenza di matrici.
pub open spec fn vedute_matrici(s: Seq<Matrice>) -> Seq<MatriceVista> {
    s.map_values(|m: Matrice| m@)
}

/// Le immagini di una sequenza di funzioni di attivazione.
pub open spec fn vedute_funzioni(s: Seq<FunzioneAttivazione>) -> Seq<FunzioneVista> {
    s.map_values(|f: FunzioneAttivazione| f@)
}

impl View for ReteNeurale {
    type V = ReteVista;

    open spec fn view(&self) -> ReteVista {
        ReteVista {
            strati: vedute_matrici(self.strati@),
            funzioni: vedute_funzioni(self.funzioni_attivazione@),
            tasso: self.tasso_apprendimento@,
            dimensioni: self.dimensioni_strati@,
        }
    }
}

/// Le matrici combaciano con la topologia: una matrice per coppia di strati
/// adiacenti, con tante righe quanti i neuroni dello strato d'arrivo e
/// tante colonne quanti quelli dello strato di partenza.
pub open spec fn forme_giuste(strati: Seq<MatriceVista>, dimensioni: Seq<usize>) -> bool {
    &&& strati.len() + 1 == dimensioni.len()
    &&& forall|i: int|
        0 <= i < strati.len() ==> (#[trigger] strati[i]).righe == dimensioni[i + 1]
            && strati[i].colonne == dimensioni[i]
}

/// La rete e' ben formata: topologia non vuota, matrici valide che
/// combaciano con la topologia, almeno una funzione di attivazione, tutte
/// ben formate, e un tasso di apprendimento numerico.
pub open spec fn rete_valida(v: ReteVista) -> bool {
    &&& v.dimensioni.len() >= 1
    &&& forme_giuste(v.strati, v.dimensioni)
    &&& forall|i: int| 0 <= i < v.strati.len() ==> matrice_valida(#[trigger] v.strati[i])
    &&& v.funzioni.len() >= 1
    &&& forall|i: int| 0 <= i < v.funzioni.len() ==> funzione_valida(#[trigger] v.funzioni[i])
    &&& token_numerico(v.tasso)
}

/// I numeri di neuroni dichiarati dagli strati.
pub open spec fn neuroni_di(info: Seq<Strato>) -> Seq<usize> {
    info.map_values(|s: Strato| s.neuroni)
}

/// Le funzioni della costruzione per strati: la prima posizione e' sempre
/// la funzione neutra dell'ingresso, le altre vengono dagli strati.
pub open spec fn funzioni_nuova(info: Seq<Strato>) -> Seq<FunzioneVista> {
    Seq::new(
        info.len(),
        |i: int|
            if i == 0 {
                FunzioneVista::Nessuna
            } else {
                info[i].funzione_attivazione@
            },
    )
}

/// Le funzioni degli strati dopo l'ingresso sono tutte ben formate.
pub open spec fn funzioni_info_valide(info: Seq<Strato>) -> bool {
    forall|i: int| 1 <= i < info.len() ==> funzione_valida(#[trigger] info[i].funzione_attivazione@)
}

/// La matrice riga per riga: per ogni riga, la lista dei token delle sue
/// caselle da sinistra a destra.
pub open spec fn righe_di(m: MatriceVista) -> Seq<Seq<Seq<u8>>> {
    Seq::new(
        m.righe as nat,
        |r: int| Seq::new(m.colonne as nat, |c: int| casella(m, r, c)),
    )
}

/// Le viste di una lista di righe di token.
pub open spec fn viste_righe(s: Seq<Vec<Vec<u8>>>) -> Seq<Seq<Seq<u8>>> {
    s.map_values(|v: Vec<Vec<u8>>| viste(v@))
}

impl ReteNeurale {
    /// Costruisce una rete dagli strati dichiarati, dal tasso di
    /// apprendimento e dalle matrici iniziali dei pesi, una per coppia di
    /// strati adiacenti. La funzione di attivazione del primo strato viene
    /// sempre sostituita da quella neutra: sull'ingresso non si applica
    /// alcuna funzione.
    pub fn nuova(
        info_strati: Vec<Strato>,
        tasso_apprendimento: Vec<u8>,
        pesi_iniziali: Vec<Matrice>,
    ) -> (r: Result<ReteNeurale, ErroreRete>)
        requires
            forall|i: int|
                0 <= i < pesi_iniziali@.len() ==> matrice_valida(#[trigger] pesi_iniziali@[i]@),
        ensures
            match r {
                Ok(rete) => {
                    &&& info_strati@.len() >= 2
                    &&& token_numerico(tasso_apprendimento@)
                    &&& funzioni_info_valide(info_strati@)
                    &&& forme_giuste(vedute_matrici(pesi_iniziali@), neuroni_di(info_strati@))
                    &&& rete@.dimensioni == neuroni_di(info_strati@)
                    &&& rete@.funzioni == funzioni_nuova(info_strati@)
                    &&& rete@.tasso == tasso_apprendimento@
                    &&& rete@.strati == vedute_matrici(pesi_iniziali@)
                    &&& rete_valida(rete@)
                },
                Err(e) => {
                    ||| (info_strati@.len() < 2 && e == ErroreRete::StratiInsufficienti)
                    ||| (info_strati@.len() >= 2 && !token_numerico(tasso_apprendimento@) && e
                        == ErroreRete::TokenNonNumerico)
                    ||| (info_strati@.len() >= 2 && token_numerico(tasso_apprendimento@)
                        && !funzioni_info_valide(info_strati@) && e == ErroreRete::TokenNonNumerico)
                    ||| (info_strati@.len() >= 2 && token_numerico(tasso_apprendimento@)
                        && funzioni_info_valide(info_strati@) && !forme_giuste(
                        vedute_matrici(pesi_iniziali@),
                        neuroni_di(info_strati@),
                    ) && e == ErroreRete::DimensioniIncoerenti)
                },
            },
    {
        if info_strati.len() < 2 {
            return Err(ErroreRete::StratiInsufficienti);
        }
        if !e_token_numerico(&tasso_apprendimento) {
            return Err(ErroreRete::TokenNonNumerico);
        }
        let mut i: usize = 1;
        while i < info_strati.len()
            invariant
                1 <= i <= info_strati.len(),
                forall|j: int|
                    1 <= j < i ==> funzione_valida(
                        #[trigger] info_strati@[j].funzione_attivazione@,
                    ),
            decreases info_strati.len() - i,
        {
            if !info_strati[i].funzione_attivazione.valida_esegui() {
                return Err(ErroreRete::TokenNonNumerico);
            }
            i += 1;
        }
        if pesi_iniziali.len() != info_strati.len() - 1 {
            proof {
                assert(vedute_matrici(pesi_iniziali@).len() == pesi_iniziali@.len());
                assert(neuroni_di(info_strati@).len() == info_strati@.len());
            }
            return Err(ErroreRete::DimensioniIncoerenti);
        }
        let mut i: usize = 0;
        while i < pesi_iniziali.len()
            invariant
                i <= pesi_iniziali.len(),
                pesi_iniziali@.len() + 1 == info_strati@.len(),
                info_strati@.len() >= 2,
                token_numerico(tasso_apprendimento@),
                funzioni_info_valide(info_strati@),
                forall|j: int|
                    0 <= j < i ==> (#[trigger] vedute_matrici(pesi_iniziali@)[j]).righe
                        == neuroni_di(info_strati@)[j + 1] && vedute_matrici(pesi_iniziali@)[
                        j
                    ].colonne == neuroni_di(info_strati@)[j],
            decreases pesi_iniziali.len() - i,
        {
            let va_bene = pesi_iniziali[i].numero_righe() == info_strati[i + 1].neuroni
                && pesi_iniziali[i].numero_colonne() == info_strati[i].neuroni;
            proof {
                assert(vedute_matrici(pesi_iniziali@)[i as int] == pesi_iniziali@[i as int]@);
                assert(neuroni_di(info_strati@)[i as int] == info_strati@[i as int].neuroni);
                assert(neuroni_di(info_strati@)[i + 1] == info_strati@[i + 1].neuroni);
            }
            if !va_bene {
                return Err(ErroreRete::DimensioniIncoerenti);
            }
            i += 1;
        }
        let mut dimensioni: Vec<usize> = Vec::new();
        let mut i: usize = 0;
        while i < info_strati.len()
            invariant
                i <= info_strati.len(),
                dimensioni@.len() == i,
                forall|j: int| 0 <= j < i ==> dimensioni@[j] == neuroni_di(info_strati@)[j],
            decreases info_strati.len() - i,
        {
            dimensioni.push(info_strati[i].neuroni);
            i += 1;
        }
        let mut funzioni: Vec<FunzioneAttivazione> = Vec::new();
        funzioni.push(FunzioneAttivazione::Nessuna);
        let mut i: usize = 1;
        while i < info_strati.len()
            invariant
                1 <= i <= info_strati.len(),
                funzioni@.len() == i,
                forall|j: int| 0 <= j < i ==> funzioni@[j]@ == funzioni_nuova(info_strati@)[j],
                forall|j: int|
                    1 <= j < info_strati.len() ==> funzione_valida(
                        #[trigger] info_strati@[j].funzione_attivazione@,
                    ),
            decreases info_strati.len() - i,
        {
            funzioni.push(info_strati[i].funzione_attivazione.duplica());
            i += 1;
        }
        let rete = ReteNeurale {
            strati: pesi_iniziali,
            funzioni_attivazione: funzioni,
            tasso_apprendimento,
            dimensioni_strati: dimensioni,
        };
        proof {
            assert(rete@.dimensioni =~= neuroni_di(info_strati@));
            assert(rete@.funzioni =~= funzioni_nuova(info_strati@));
            assert(forme_giuste(rete@.strati, rete@.dimensioni));
            assert forall|j: int| 0 <= j < rete@.funzioni.len() implies funzione_valida(
                #[trigger] rete@.funzioni[j],
            ) by {
                assert(rete@.funzioni[j] == funzioni_nuova(info_strati@)[j]);
            }
            assert(rete_valida(rete@));
        }
        Ok(rete)
    }

    /// Costruisce una rete con un'unica funzione di attivazione in lista,
    /// valida per ogni stadio dopo l'ingresso.
    pub fn nuova_rete_uniforme(
        dimensioni_strati: Vec<usize>,
        tasso_apprendimento: Vec<u8>,
        funzione_attivazione: FunzioneAttivazione,
        pesi_iniziali: Vec<Matrice>,
    ) -> (r: Result<ReteNeurale, ErroreRete>)
        requires
            forall|i: int|
                0 <= i < pesi_iniziali@.len() ==> matrice_valida(#[trigger] pesi_iniziali@[i]@),
        ensures
            match r {
                Ok(rete) => {
                    &&& dimensioni_strati@.len() >= 2
                    &&& token_numerico(tasso_apprendimento@)
                    &&& funzione_valida(funzione_attivazione@)
                    &&& forme_giuste(vedute_matrici(pesi_iniziali@), dimensioni_strati@)
                    &&& rete@.dimensioni == dimensioni_strati@
                    &&& rete@.funzioni == seq![funzione_attivazione@]
                    &&& rete@.tasso == tasso_apprendimento@
                    &&& rete@.strati == vedute_matrici(pesi_iniziali@)
                    &&& rete_valida(rete@)
                },
                Err(e) => {
                    ||| (dimensioni_strati@.len() < 2 && e == ErroreRete::StratiInsufficienti)
                    ||| (dimensioni_strati@.len() >= 2 && !token_numerico(tasso_apprendimento@)
                        && e == ErroreRete::TokenNonNumerico)
                    ||| (dimensioni_strati@.len() >= 2 && token_numerico(tasso_apprendimento@)
                        && !funzione_valida(funzione_attivazione@) && e
                        == ErroreRete::TokenNonNumerico)
                    ||| (dimensioni_strati@.len() >= 2 && token_numerico(tasso_apprendimento@)
                        && funzione_valida(funzione_attivazione@) && !forme_giuste(
                        vedute_matrici(pesi_iniziali@),
                        dimensioni_strati@,
                    ) && e == ErroreRete::DimensioniIncoerenti)
                },
            },
    {
        if dimensioni_strati.len() < 2 {
            return Err(ErroreRete::StratiInsufficienti);
        }
        if !e_token_numerico(&tasso_apprendimento) {
            return Err(ErroreRete::TokenNonNumerico);
        }
        if !funzione_attivazione.valida_esegui() {
            return Err(ErroreRete::TokenNonNumerico);
        }
        if pesi_iniziali.len() != dimensioni_strati.len() - 1 {
            proof {
                assert(vedute_matrici(pesi_iniziali@).len() == pesi_iniziali@.len());
            }
            return Err(ErroreRete::DimensioniIncoerenti);
        }
        let mut i: usize = 0;
        while i < pesi_iniziali.len()
            invariant
                i <= pesi_iniziali.len(),
                pesi_iniziali@.len() + 1 == dimensioni_strati@.len(),
                dimensioni_strati@.len() >= 2,
                token_numerico(tasso_apprendimento@),
                funzione_valida(funzione_attivazione@),
                forall|j: int|
                    0 <= j < i ==> (#[trigger] vedute_matrici(pesi_iniziali@)[j]).righe
                        == dimensioni_strati@[j + 1] && vedute_matrici(pesi_iniziali@)[j].colonne
                        == dimensioni_strati@[j],
            decreases pesi_iniziali.len() - i,
        {
            let va_bene = pesi_iniziali[i].numero_righe() == dimensioni_strati[i + 1]
                && pesi_iniziali[i].numero_colonne() == dimensioni_strati[i];
            proof {
                assert(vedute_matrici(pesi_iniziali@)[i as int] == pesi_iniziali@[i as int]@);
            }
            if !va_bene {
                return Err(ErroreRete::DimensioniIncoerenti);
            }
            i += 1;
        }
        let mut funzioni: Vec<FunzioneAttivazione> = Vec::new();
        funzioni.push(funzione_attivazione);
        let rete = ReteNeurale {
            strati: pesi_iniziali,
            funzioni_attivazione: funzioni,
            tasso_apprendimento,
            dimensioni_strati,
        };
        proof {
            assert(rete@.funzioni =~= seq![rete.funzioni_attivazione@[0]@]);
            assert(forme_giuste(rete@.strati, rete@.dimensioni));
            assert(rete_valida(rete@));
        }
        Ok(rete)
    }

    /// Le dimensioni dei vari strati, dall'ingresso all'uscita.
    pub fn strati(&self) -> (r: Vec<usize>)
        ensures
            r@ == self@.dimensioni,
    {
        let mut r: Vec<usize> = Vec::new();
        let mut i: usize = 0;
        while i < self.dimensioni_strati.len()
            invariant
                i <= self.dimensioni_strati.len(),
                r@ == self.dimensioni_strati@.take(i as int),
            decreases self.dimensioni_strati.len() - i,
        {
            r.push(self.dimensioni_strati[i]);
            proof {
                assert(self.dimensioni_strati@.take(i + 1) =~= self.dimensioni_strati@.take(
                    i as int,
                ).push(self.dimensioni_strati@[i as int]));
            }
            i += 1;
        }
        proof {
            assert(self.dimensioni_strati@.take(self.dimensioni_strati@.len() as int)
                =~= self.dimensioni_strati@);
        }
        r
    }

    /// Il nome della funzione di attivazione alla posizione data della
    /// lista.
    pub fn funzione_attivazione(&self, indice: usize) -> (r: Vec<u8>)
        requires
            indice < self@.funzioni.len(),
        ensures
            r@ == nome_di(self@.funzioni[indice as int]),
    {
        let r = self.funzioni_attivazione[indice].nome();
        proof {
            assert(self@.funzioni[indice as int] == self.funzioni_attivazione@[indice as int]@);
        }
        r
    }

    /// Le sigle di tutte le funzioni di attivazione, nell'ordine della
    /// lista.
    pub fn lista_funzioni_attivazioni(&self) -> (r: Vec<Vec<u8>>)
        ensures
            r@.len() == self@.funzioni.len(),
            forall|i: int|
                0 <= i < r@.len() ==> (#[trigger] r@[i]@) == sigla_di(self@.funzioni[i]),
    {
        let mut r: Vec<Vec<u8>> = Vec::new();
        let mut i: usize = 0;
        while i < self.funzioni_attivazione.len()
            invariant
                i <= self.funzioni_attivazione.len(),
                r@.len() == i,
                forall|j: int|
                    0 <= j < i ==> (#[trigger] r@[j]@) == sigla_di(
                        self.funzioni_attivazione@[j]@,
                    ),
            decreases self.funzioni_attivazione.len() - i,
        {
            r.push(self.funzioni_attivazione[i].sigla());
            i += 1;
        }
        r
    }

    /// I codici completi di tutte le funzioni di attivazione, col
    /// parametro della variante con perdita, nell'ordine della lista.
    pub fn lista_codici_attivazioni(&self) -> (r: Vec<Vec<u8>>)
        ensures
            r@.len() == self@.funzioni.len(),
            forall|i: int|
                0 <= i < r@.len() ==> (#[trigger] r@[i]@) == crate::attivazione::codice_di(
                    self@.funzioni[i],
                ),
    {
        let mut r: Vec<Vec<u8>> = Vec::new();
        let mut i: usize = 0;
        while i < self.funzioni_attivazione.len()
            invariant
                i <= self.funzioni_attivazione.len(),
                r@.len() == i,
                forall|j: int|
                    0 <= j < i ==> (#[trigger] r@[j]@) == crate::attivazione::codice_di(
                        self.funzioni_attivazione@[j]@,
                    ),
            decreases self.funzioni_attivazione.len() - i,
        {
            r.push(self.funzioni_attivazione[i].codice());
            i += 1;
        }
        r
    }

    /// Il tasso di apprendimento, come token testuale.
    pub fn tasso_apprendimento(&self) -> (r: Vec<u8>)
        ensures
            r@ == self@.tasso,
    {
        sotto_vettore_intero(&self.tasso_apprendimento)
    }

    /// I pesi delle connessioni fra gli strati: per ogni matrice, le righe
    /// dall'alto in basso, ognuna coi token delle sue caselle.
    pub fn pesi_connessioni(&self) -> (r: Vec<Vec<Vec<Vec<u8>>>>)
        requires
            rete_valida(self@),
        ensures
            r@.len() == self@.strati.len(),
            forall|i: int|
                0 <= i < r@.len() ==> viste_righe(#[trigger] r@[i]@) == righe_di(self@.strati[i]),
    {
        let mut r: Vec<Vec<Vec<Vec<u8>>>> = Vec::new();
        let mut i: usize = 0;
        while i < self.strati.len()
            invariant
                rete_valida(self@),
                i <= self.strati.len(),
                r@.len() == i,
                forall|j: int|
                    0 <= j < i ==> viste_righe(#[trigger] r@[j]@) == righe_di(self@.strati[j]),
            decreases self.strati.len() - i,
        {
            let matrice = &self.strati[i];
            proof {
                assert(self@.strati[i as int] == self.strati@[i as int]@);
                assert(matrice_valida(self@.strati[i as int]));
            }
            let mut strato_righe: Vec<Vec<Vec<u8>>> = Vec::new();
            let mut riga: usize = 0;
            while riga < matrice.righe
                invariant
                    matrice_valida(matrice@),
                    matrice@ == self@.strati[i as int],
                    i < self.strati@.len(),
                    matrice == &self.strati@[i as int],
                    riga <= matrice.righe,
                    strato_righe@.len() == riga,
                    forall|rr: int|
                        0 <= rr < riga ==> viste(#[trigger] strato_righe@[rr]@) == righe_di(
                            matrice@,
                        )[rr],
                decreases matrice.righe - riga,
            {
                let mut valori: Vec<Vec<u8>> = Vec::new();
                let mut c: usize = 0;
                while c < matrice.colonne
                    invariant
                        matrice_valida(matrice@),
                        riga < matrice@.righe,
                        c <= matrice.colonne,
                        matrice@.colonne == matrice.colonne,
                        matrice@.righe == matrice.righe,
                        valori@.len() == c,
                        forall|k: int|
                            0 <= k < c ==> (#[trigger] valori@[k]@) == casella(
                                matrice@,
                                riga as int,
                                k,
                            ),
                    decreases matrice.colonne - c,
                {
                    valori.push(matrice.valore(riga, c));
                    c += 1;
                }
                proof {
                    assert(viste(valori@) =~= righe_di(matrice@)[riga as int]);
                }
                strato_righe.push(valori);
                riga += 1;
            }
            proof {
                assert(viste_righe(strato_righe@) =~= righe_di(matrice@));
            }
            r.push(strato_righe);
            i += 1;
        }
        r
    }

    /// Sostituisce la matrice dei pesi di uno strato con una nuova dalla
    /// stessa forma: il passo con cui l'addestramento scrive i pesi
    /// aggiornati. Con un indice fuori lista o una forma diversa la rete
    /// resta intatta.
    pub fn imposta_pesi(&mut self, indice: usize, nuova_matrice: Matrice) -> (r: Result<
        (),
        ErroreRete,
    >)
        requires
            rete_valida(old(self)@),
            matrice_valida(nuova_matrice@),
        ensures
            match r {
                Ok(()) => {
                    &&& indice < old(self)@.strati.len()
                    &&& nuova_matrice@.righe == old(self)@.strati[indice as int].righe
                    &&& nuova_matrice@.colonne == old(self)@.strati[indice as int].colonne
                    &&& final (self)@.strati == old(self)@.strati.update(
                        indice as int,
                        nuova_matrice@,
                    )
                    &&& final (self)@.funzioni == old(self)@.funzioni
                    &&& final (self)@.tasso == old(self)@.tasso
                    &&& final (self)@.dimensioni == old(self)@.dimensioni
                    &&& rete_valida(final (self)@)
                },
                Err(e) => {
                    &&& final (self)@ == old(self)@
                    &&& e == ErroreRete::DimensioniIncoerenti
                    &&& (indice >= old(self)@.strati.len() || nuova_matrice@.righe != old(
                        self,
                    )@.strati[indice as int].righe || nuova_matrice@.colonne != old(
                        self,
                    )@.strati[indice as int].colonne)
                },
            },
    {
        if indice >= self.strati.len() {
            return Err(ErroreRete::DimensioniIncoerenti);
        }
        let combacia = nuova_matrice.numero_righe() == self.strati[indice].numero_righe()
            && nuova_matrice.numero_colonne() == self.strati[indice].numero_colonne();
        proof {
            assert(old(self)@.strati[indice as int] == self.strati@[indice as int]@);
        }
        if !combacia {
            return Err(ErroreRete::DimensioniIncoerenti);
        }
        self.strati.set(indice, nuova_matrice);
        proof {
            assert(final (self)@.strati =~= old(self)@.strati.update(
                indice as int,
                nuova_matrice@,
            ));
            assert(forme_giuste(final (self)@.strati, final (self)@.dimensioni));
            assert forall|j: int| 0 <= j < final (self)@.strati.len() implies matrice_valida(
                #[trigger] final (self)@.strati[j],
            ) by {
                if j != indice {
                    assert(final (self)@.strati[j] == old(self)@.strati[j]);
                }
            }
            assert(rete_valida(final (self)@));
        }
        Ok(())
    }
}

} // verus!
