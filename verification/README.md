# tarako

The verified core of a remote-attestation signer built around an ECDSA P-256
key held by a Linux kernel module. The module signs
`SHA256(fs-verity digest || 128 octets of user data)` for its caller; the
userspace client requests such signatures and prints them, with the public
key, in DER.

Everything under `src/` is checked by Verus:

| Module | Contents |
|--------|----------|
| `der` | DER encoding (lengths, tags, INTEGER, OID, BIT STRING, strings, time) into a bounded buffer |
| `cert` | the self-signed X.509 certificate of the key, stated as a spec and built octet by octet |
| `bytes`, `convert` | limb and octet orders: big-endian octets, swapped limbs, SEC 1 public keys |
| `vli`, `vli_order`, `vli_ops`, `vli_inv` | multi-limb integers: carries, borrows, comparison, modular reduction, multiplication and inversion |
| `ecdsa` | one ECDSA signing attempt and the bounded retry loop around it |
| `ioctl` | command numbers, dispatch, the request's wire layout, the key pair, the signing request's steps and the handlers' decisions |
| `set_once` | the cell that holds the key pair |
| `client`, `client_der` | the client's argument parsing, request order, reply checks, messages and DER output |

The kernel's own services (random nonces, point multiplication, SHA-256,
IMA, fs-verity) are not part of this crate: the functions here take their
results as arguments and decide what follows. `app/` is the client program
that opens the device and performs the ioctls.
