# Virima Remote Agent

A Windows service that runs commands for remote administrators. Clients connect to the named pipe
`\\.\pipe\VirimaRemoteAgent`, speak a framed protocol and get the output of their commands while
they run; simpler clients leave request files in a directory and pick up response files.

`src/` is the agent's logic, verified with Verus. It takes events in and gives actions back; it
opens no pipe, starts no process and never waits.

| Module | What it decides |
| --- | --- |
| `protocol` | frames, their types and payloads, and their bytes |
| `pipe_io` | frames on the pipe: reading, writing, partial reads and writes |
| `client_session` | what a client's frames are answered, and what happens when it leaves |
| `message` | what the agent tells a client, as frames |
| `job_manager`, `job_table` | jobs, their states and their registry |
| `job_run` | the life of one job from its launch to its end |
| `process_launcher` | what may be launched, and which handles are kept and closed |
| `cancellation` | timeouts and the termination of processes |
| `io_pump` | output frames, their numbers and the send windows |
| `pipe_server` | client slots, the pipe's parameters and client identities |
| `file_ipc` | requests and responses in files |
| `service_host` | limits, service controls, idle clean-up and shutdown |
| `logger`, `error` | log entries, the audit trail and error texts |
| `byte_buf`, `string_map`, `text`, `wide` | buffers, maps, text and UTF-16 |

`app/` is the program around it: the Windows calls, the tasks, JSON and the log. `tests/` runs the
library on concrete values.

Functions named `law_...` state what holds of the library as a whole.
